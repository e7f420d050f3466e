use vstd::prelude::*;
use crate::strmap::{StrMap, lists_str_values};
use crate::text::{push_str, string_from_chars, string_of, str_equal};

verus! {

/// The texts of a list of strings.
pub open spec fn strs_view(v: Seq<String>) -> Seq<Seq<char>> {
    v.map_values(|s: String| s@)
}

/// A copy of a list of strings.
pub fn clone_strings(v: &Vec<String>) -> (r: Vec<String>)
    ensures
        strs_view(r@) == strs_view(v@),
{
    let mut out: Vec<String> = Vec::new();
    let mut i: usize = 0;
    while i < v.len()
        invariant
            i <= v@.len(),
            out@.len() == i,
            forall|j: int| 0 <= j < i ==> #[trigger] out@[j]@ == v@[j]@,
        decreases v@.len() - i,
    {
        out.push(v[i].clone());
        i = i + 1;
    }
    assert(strs_view(out@) =~= strs_view(v@));
    out
}

/// An OCR service offered by a plugin.
#[derive(Debug)]
pub struct OCRServiceInfo {
    pub id: String,
    pub name: String,
    pub plugin_id: String,
    pub supported_languages: Vec<String>,
    pub supported_image_formats: Vec<String>,
}

/// The abstract value of an OCR service description.
pub struct OcrServiceView {
    pub id: Seq<char>,
    pub name: Seq<char>,
    pub plugin_id: Seq<char>,
    pub supported_languages: Seq<Seq<char>>,
    pub supported_image_formats: Seq<Seq<char>>,
}

impl View for OCRServiceInfo {
    type V = OcrServiceView;

    open spec fn view(&self) -> OcrServiceView {
        OcrServiceView {
            id: self.id@,
            name: self.name@,
            plugin_id: self.plugin_id@,
            supported_languages: strs_view(self.supported_languages@),
            supported_image_formats: strs_view(self.supported_image_formats@),
        }
    }
}

impl Clone for OCRServiceInfo {
    fn clone(&self) -> (r: Self)
        ensures
            r@ == self@,
    {
        OCRServiceInfo {
            id: self.id.clone(),
            name: self.name.clone(),
            plugin_id: self.plugin_id.clone(),
            supported_languages: clone_strings(&self.supported_languages),
            supported_image_formats: clone_strings(&self.supported_image_formats),
        }
    }
}

/// A translation service offered by a plugin.
#[derive(Debug)]
pub struct TranslationServiceInfo {
    pub id: String,
    pub name: String,
    pub plugin_id: String,
    pub source_languages: Vec<String>,
    pub target_languages: Vec<String>,
    pub supports_auto_detect: bool,
}

/// The abstract value of a translation service description.
pub struct TranslationServiceView {
    pub id: Seq<char>,
    pub name: Seq<char>,
    pub plugin_id: Seq<char>,
    pub source_languages: Seq<Seq<char>>,
    pub target_languages: Seq<Seq<char>>,
    pub supports_auto_detect: bool,
}

impl View for TranslationServiceInfo {
    type V = TranslationServiceView;

    open spec fn view(&self) -> TranslationServiceView {
        TranslationServiceView {
            id: self.id@,
            name: self.name@,
            plugin_id: self.plugin_id@,
            source_languages: strs_view(self.source_languages@),
            target_languages: strs_view(self.target_languages@),
            supports_auto_detect: self.supports_auto_detect,
        }
    }
}

impl Clone for TranslationServiceInfo {
    fn clone(&self) -> (r: Self)
        ensures
            r@ == self@,
    {
        TranslationServiceInfo {
            id: self.id.clone(),
            name: self.name.clone(),
            plugin_id: self.plugin_id.clone(),
            source_languages: clone_strings(&self.source_languages),
            target_languages: clone_strings(&self.target_languages),
            supports_auto_detect: self.supports_auto_detect,
        }
    }
}

/// `prefix`, the quoted `id`, then `suffix`.
pub open spec fn quoted_message(prefix: Seq<char>, id: Seq<char>, suffix: Seq<char>) -> Seq<char> {
    prefix + "'"@ + id + "'"@ + suffix
}

/// Builds `prefix'id'suffix`.
fn quoted(prefix: &str, id: &str, suffix: &str) -> (r: String)
    ensures
        r@ == quoted_message(prefix@, id@, suffix@),
{
    let mut out: Vec<char> = Vec::new();
    push_str(&mut out, prefix);
    push_str(&mut out, "'");
    push_str(&mut out, id);
    push_str(&mut out, "'");
    push_str(&mut out, suffix);
    assert(out@ =~= quoted_message(prefix@, id@, suffix@));
    string_from_chars(&out)
}

/// The services of `m` that belong to plugin `p`.
pub open spec fn ocr_owned_by(m: Map<Seq<char>, OcrServiceView>, p: Seq<char>) -> Set<Seq<char>> {
    Set::new(|k: Seq<char>| m.contains_key(k) && m[k].plugin_id == p)
}

/// The services of `m` that belong to plugin `p`.
pub open spec fn translation_owned_by(m: Map<Seq<char>, TranslationServiceView>, p: Seq<char>) -> Set<
    Seq<char>,
> {
    Set::new(|k: Seq<char>| m.contains_key(k) && m[k].plugin_id == p)
}

/// The registry of OCR and translation services that plugins provide, with
/// the plugin behind each service.
pub struct BunnyPluginManager {
    ocr_services: StrMap<OCRServiceInfo>,
    translation_services: StrMap<TranslationServiceInfo>,
    service_to_plugin: StrMap<String>,
}

impl BunnyPluginManager {
    /// The registered OCR services by identifier.
    pub closed spec fn ocr(&self) -> Map<Seq<char>, OcrServiceView> {
        self.ocr_services.map()
    }

    /// The registered translation services by identifier.
    pub closed spec fn translation(&self) -> Map<Seq<char>, TranslationServiceView> {
        self.translation_services.map()
    }

    /// The plugin behind each service identifier.
    pub closed spec fn routes(&self) -> Map<Seq<char>, Seq<char>> {
        self.service_to_plugin.map()
    }

    /// The manager's internal consistency.
    pub closed spec fn wf(&self) -> bool {
        &&& self.ocr_services.wf()
        &&& self.translation_services.wf()
        &&& self.service_to_plugin.wf()
    }

    /// A manager with no services.
    pub fn new() -> (m: Self)
        ensures
            m.wf(),
            m.ocr() == Map::<Seq<char>, OcrServiceView>::empty(),
            m.translation() == Map::<Seq<char>, TranslationServiceView>::empty(),
            m.routes() == Map::<Seq<char>, Seq<char>>::empty(),
    {
        BunnyPluginManager {
            ocr_services: StrMap::new(),
            translation_services: StrMap::new(),
            service_to_plugin: StrMap::new(),
        }
    }

    /// Registers an OCR service; refused when its identifier is already an
    /// OCR service.
    pub fn register_ocr_service(&mut self, info: OCRServiceInfo) -> (r: Result<(), String>)
        requires
            old(self).wf(),
        ensures
            final(self).wf(),
            r is Err <==> old(self).ocr().contains_key(info.id@),
            r matches Err(e) ==> e@ == quoted_message("OCR service "@, info.id@, " already registered"@)
                && *final(self) == *old(self),
            r is Ok ==> {
                &&& final(self).ocr() == old(self).ocr().insert(info.id@, info@)
                &&& final(self).translation() == old(self).translation()
                &&& final(self).routes() == old(self).routes().insert(info.id@, info.plugin_id@)
            },
    {
        if self.ocr_services.contains_key(info.id.as_str()) {
            return Err(quoted("OCR service ", info.id.as_str(), " already registered"));
        }
        let service_id = info.id.clone();
        let plugin_id = info.plugin_id.clone();
        self.ocr_services.insert(service_id.clone(), info);
        self.service_to_plugin.insert(service_id, plugin_id);
        Ok(())
    }

    /// Registers a translation service; refused when its identifier is
    /// already a translation service.
    pub fn register_translation_service(&mut self, info: TranslationServiceInfo) -> (r: Result<(), String>)
        requires
            old(self).wf(),
        ensures
            final(self).wf(),
            r is Err <==> old(self).translation().contains_key(info.id@),
            r matches Err(e) ==> e@ == quoted_message("Translation service "@, info.id@, " already registered"@)
                && *final(self) == *old(self),
            r is Ok ==> {
                &&& final(self).translation() == old(self).translation().insert(info.id@, info@)
                &&& final(self).ocr() == old(self).ocr()
                &&& final(self).routes() == old(self).routes().insert(info.id@, info.plugin_id@)
            },
    {
        if self.translation_services.contains_key(info.id.as_str()) {
            return Err(quoted("Translation service ", info.id.as_str(), " already registered"));
        }
        let service_id = info.id.clone();
        let plugin_id = info.plugin_id.clone();
        self.translation_services.insert(service_id.clone(), info);
        self.service_to_plugin.insert(service_id, plugin_id);
        Ok(())
    }

    /// Removes a service: an OCR service of that identifier if there is one,
    /// else a translation service; refused when there is neither.
    pub fn unregister_service(&mut self, service_id: &str) -> (r: Result<(), String>)
        requires
            old(self).wf(),
        ensures
            final(self).wf(),
            r is Err <==> !old(self).ocr().contains_key(service_id@) && !old(self).translation().contains_key(
                service_id@,
            ),
            r matches Err(e) ==> e@ == quoted_message("Service "@, service_id@, " not found"@) && *final(self)
                == *old(self),
            old(self).ocr().contains_key(service_id@) ==> {
                &&& final(self).ocr() == old(self).ocr().remove(service_id@)
                &&& final(self).translation() == old(self).translation()
                &&& final(self).routes() == old(self).routes().remove(service_id@)
            },
            !old(self).ocr().contains_key(service_id@) && old(self).translation().contains_key(service_id@)
                ==> {
                &&& final(self).ocr() == old(self).ocr()
                &&& final(self).translation() == old(self).translation().remove(service_id@)
                &&& final(self).routes() == old(self).routes().remove(service_id@)
            },
    {
        if self.ocr_services.contains_key(service_id) {
            let _ = self.ocr_services.remove(service_id);
            let _ = self.service_to_plugin.remove(service_id);
            return Ok(());
        }
        if self.translation_services.contains_key(service_id) {
            let _ = self.translation_services.remove(service_id);
            let _ = self.service_to_plugin.remove(service_id);
            return Ok(());
        }
        Err(quoted("Service ", service_id, " not found"))
    }

    /// The identifiers of the OCR services of plugin `plugin_id`.
    fn ocr_ids_of(&self, plugin_id: &str) -> (r: Vec<String>)
        requires
            self.wf(),
        ensures
            forall|k: Seq<char>| #[trigger] ocr_owned_by(self.ocr(), plugin_id@).contains(k) <==> strs_view(
                r@,
            ).contains(k),
    {
        let entries = self.ocr_services.entry_refs();
        let ghost ks = self.ocr_services.keys();
        let ghost m = self.ocr();
        let mut out: Vec<String> = Vec::new();
        let mut i: usize = 0;
        while i < entries.len()
            invariant
                i <= entries@.len(),
                entries@.len() == ks.len(),
                forall|j: int| 0 <= j < entries@.len() ==> #[trigger] entries@[j].0@ == ks[j],
                forall|j: int| 0 <= j < entries@.len() ==> #[trigger] entries@[j].1@ == m[ks[j]],
                forall|k: Seq<char>| #[trigger] strs_view(out@).contains(k) <==> exists|j: int|
                    0 <= j < i && #[trigger] ks[j] == k && m[k].plugin_id == plugin_id@,
            decreases entries@.len() - i,
        {
            let (k, v) = entries[i];
            let ghost before = strs_view(out@);
            let ghost ki = ks[i as int];
            assert(k@ == ki && v@ == m[ki]);
            if str_equal(v.plugin_id.as_str(), plugin_id) {
                out.push(k.clone());
                assert(strs_view(out@) =~= before.push(k@));
                assert forall|x: Seq<char>| #[trigger] strs_view(out@).contains(x) <==> exists|j: int|
                    0 <= j < i + 1 && #[trigger] ks[j] == x && m[x].plugin_id == plugin_id@ by {
                    if strs_view(out@).contains(x) {
                        if x != ki {
                            let t = choose|t: int| 0 <= t < before.len() && before[t] == x;
                            assert(strs_view(out@)[t] == x);
                            assert(before.contains(x));
                        }
                    }
                    if exists|j: int| 0 <= j < i + 1 && #[trigger] ks[j] == x && m[x].plugin_id == plugin_id@ {
                        let j = choose|j: int| 0 <= j < i + 1 && #[trigger] ks[j] == x && m[x].plugin_id == plugin_id@;
                        if j < i {
                            assert(before.contains(x));
                            let t = choose|t: int| 0 <= t < before.len() && before[t] == x;
                            assert(strs_view(out@)[t] == x);
                        } else {
                            assert(strs_view(out@)[before.len() as int] == x);
                        }
                    }
                }
            } else {
                assert forall|x: Seq<char>| #[trigger] strs_view(out@).contains(x) <==> exists|j: int|
                    0 <= j < i + 1 && #[trigger] ks[j] == x && m[x].plugin_id == plugin_id@ by {
                    if exists|j: int| 0 <= j < i + 1 && #[trigger] ks[j] == x && m[x].plugin_id == plugin_id@ {
                        let j = choose|j: int| 0 <= j < i + 1 && #[trigger] ks[j] == x && m[x].plugin_id == plugin_id@;
                        assert(j != i);
                    }
                }
            }
            i = i + 1;
        }
        proof {
            self.ocr_services.lemma_map_entries();
            assert forall|k: Seq<char>| #[trigger] ocr_owned_by(m, plugin_id@).contains(k) implies strs_view(out@).contains(k) by {
                let j = ks.index_of(k);
                assert(ks[j] == k);
            }
            assert forall|k: Seq<char>| #[trigger] strs_view(out@).contains(k) implies ocr_owned_by(m, plugin_id@).contains(k) by {
                let j = choose|j: int| 0 <= j < ks.len() && #[trigger] ks[j] == k && m[k].plugin_id == plugin_id@;
                assert(ks.contains(k));
            }
        }
        out
    }

    /// The identifiers of the translation services of plugin `plugin_id`.
    fn translation_ids_of(&self, plugin_id: &str) -> (r: Vec<String>)
        requires
            self.wf(),
        ensures
            forall|k: Seq<char>| #[trigger] translation_owned_by(self.translation(), plugin_id@).contains(k) <==> strs_view(
                r@,
            ).contains(k),
    {
        let entries = self.translation_services.entry_refs();
        let ghost ks = self.translation_services.keys();
        let ghost m = self.translation();
        let mut out: Vec<String> = Vec::new();
        let mut i: usize = 0;
        while i < entries.len()
            invariant
                i <= entries@.len(),
                entries@.len() == ks.len(),
                forall|j: int| 0 <= j < entries@.len() ==> #[trigger] entries@[j].0@ == ks[j],
                forall|j: int| 0 <= j < entries@.len() ==> #[trigger] entries@[j].1@ == m[ks[j]],
                forall|k: Seq<char>| #[trigger] strs_view(out@).contains(k) <==> exists|j: int|
                    0 <= j < i && #[trigger] ks[j] == k && m[k].plugin_id == plugin_id@,
            decreases entries@.len() - i,
        {
            let (k, v) = entries[i];
            let ghost before = strs_view(out@);
            let ghost ki = ks[i as int];
            assert(k@ == ki && v@ == m[ki]);
            if str_equal(v.plugin_id.as_str(), plugin_id) {
                out.push(k.clone());
                assert(strs_view(out@) =~= before.push(k@));
                assert forall|x: Seq<char>| #[trigger] strs_view(out@).contains(x) <==> exists|j: int|
                    0 <= j < i + 1 && #[trigger] ks[j] == x && m[x].plugin_id == plugin_id@ by {
                    if strs_view(out@).contains(x) {
                        if x != ki {
                            let t = choose|t: int| 0 <= t < before.len() && before[t] == x;
                            assert(strs_view(out@)[t] == x);
                            assert(before.contains(x));
                        }
                    }
                    if exists|j: int| 0 <= j < i + 1 && #[trigger] ks[j] == x && m[x].plugin_id == plugin_id@ {
                        let j = choose|j: int| 0 <= j < i + 1 && #[trigger] ks[j] == x && m[x].plugin_id == plugin_id@;
                        if j < i {
                            assert(before.contains(x));
                            let t = choose|t: int| 0 <= t < before.len() && before[t] == x;
                            assert(strs_view(out@)[t] == x);
                        } else {
                            assert(strs_view(out@)[before.len() as int] == x);
                        }
                    }
                }
            } else {
                assert forall|x: Seq<char>| #[trigger] strs_view(out@).contains(x) <==> exists|j: int|
                    0 <= j < i + 1 && #[trigger] ks[j] == x && m[x].plugin_id == plugin_id@ by {
                    if exists|j: int| 0 <= j < i + 1 && #[trigger] ks[j] == x && m[x].plugin_id == plugin_id@ {
                        let j = choose|j: int| 0 <= j < i + 1 && #[trigger] ks[j] == x && m[x].plugin_id == plugin_id@;
                        assert(j != i);
                    }
                }
            }
            i = i + 1;
        }
        proof {
            self.translation_services.lemma_map_entries();
            assert forall|k: Seq<char>| #[trigger] translation_owned_by(m, plugin_id@).contains(k) implies strs_view(out@).contains(k) by {
                let j = ks.index_of(k);
                assert(ks[j] == k);
            }
            assert forall|k: Seq<char>| #[trigger] strs_view(out@).contains(k) implies translation_owned_by(m, plugin_id@).contains(k) by {
                let j = choose|j: int| 0 <= j < ks.len() && #[trigger] ks[j] == k && m[k].plugin_id == plugin_id@;
                assert(ks.contains(k));
            }
        }
        out
    }

    /// Removes every service of a plugin, and its routes; refused when the
    /// plugin has none.
    pub fn unregister_plugin_services(&mut self, plugin_id: &str) -> (r: Result<(), String>)
        requires
            old(self).wf(),
        ensures
            final(self).wf(),
            final(self).ocr() == old(self).ocr().remove_keys(ocr_owned_by(old(self).ocr(), plugin_id@)),
            final(self).translation() == old(self).translation().remove_keys(
                translation_owned_by(old(self).translation(), plugin_id@),
            ),
            final(self).routes() == old(self).routes().remove_keys(
                ocr_owned_by(old(self).ocr(), plugin_id@).union(
                    translation_owned_by(old(self).translation(), plugin_id@),
                ),
            ),
            r is Ok <==> exists|k: Seq<char>|
                #![trigger ocr_owned_by(old(self).ocr(), plugin_id@).contains(k)]
                #![trigger translation_owned_by(old(self).translation(), plugin_id@).contains(k)]
                ocr_owned_by(old(self).ocr(), plugin_id@).contains(k) || translation_owned_by(
                    old(self).translation(),
                    plugin_id@,
                ).contains(k),
            r matches Err(e) ==> e@ == quoted_message("No services found for plugin "@, plugin_id@, ""@),
    {
        let ghost owned_ocr = ocr_owned_by(old(self).ocr(), plugin_id@);
        let ghost owned_tr = translation_owned_by(old(self).translation(), plugin_id@);
        let ocr_ids = self.ocr_ids_of(plugin_id);
        let tr_ids = self.translation_ids_of(plugin_id);
        let mut i: usize = 0;
        while i < ocr_ids.len()
            invariant
                self.wf(),
                i <= ocr_ids@.len(),
                self.ocr() == old(self).ocr().remove_keys(strs_view(ocr_ids@).take(i as int).to_set()),
                self.translation() == old(self).translation(),
                self.routes() == old(self).routes().remove_keys(strs_view(ocr_ids@).take(i as int).to_set()),
            decreases ocr_ids@.len() - i,
        {
            let ghost before = strs_view(ocr_ids@).take(i as int).to_set();
            let _ = self.ocr_services.remove(ocr_ids[i].as_str());
            let _ = self.service_to_plugin.remove(ocr_ids[i].as_str());
            assert(strs_view(ocr_ids@).take(i + 1) =~= strs_view(ocr_ids@).take(i as int).push(ocr_ids@[i as int]@));
            proof {
                strs_view(ocr_ids@).take(i as int).lemma_push_to_set_commute(ocr_ids@[i as int]@);
            }
            assert(strs_view(ocr_ids@).take(i + 1).to_set() =~= before.insert(ocr_ids@[i as int]@));
            i = i + 1;
        }
        proof {
            assert(strs_view(ocr_ids@).take(ocr_ids@.len() as int) =~= strs_view(ocr_ids@));
            assert(strs_view(tr_ids@).take(0) =~= Seq::<Seq<char>>::empty());
            assert(strs_view(ocr_ids@).to_set().union(strs_view(tr_ids@).take(0).to_set()) =~= strs_view(ocr_ids@).to_set());
        }
        let mut j: usize = 0;
        while j < tr_ids.len()
            invariant
                self.wf(),
                j <= tr_ids@.len(),
                self.ocr() == old(self).ocr().remove_keys(strs_view(ocr_ids@).to_set()),
                self.translation() == old(self).translation().remove_keys(strs_view(tr_ids@).take(j as int).to_set()),
                self.routes() == old(self).routes().remove_keys(
                    strs_view(ocr_ids@).to_set().union(strs_view(tr_ids@).take(j as int).to_set()),
                ),
            decreases tr_ids@.len() - j,
        {
            let ghost before = strs_view(tr_ids@).take(j as int).to_set();
            let _ = self.translation_services.remove(tr_ids[j].as_str());
            let _ = self.service_to_plugin.remove(tr_ids[j].as_str());
            assert(strs_view(tr_ids@).take(j + 1) =~= strs_view(tr_ids@).take(j as int).push(tr_ids@[j as int]@));
            proof {
                strs_view(tr_ids@).take(j as int).lemma_push_to_set_commute(tr_ids@[j as int]@);
            }
            assert(strs_view(tr_ids@).take(j + 1).to_set() =~= before.insert(tr_ids@[j as int]@));
            j = j + 1;
        }
        proof {
            assert(strs_view(ocr_ids@).take(ocr_ids@.len() as int) =~= strs_view(ocr_ids@));
            assert(strs_view(tr_ids@).take(tr_ids@.len() as int) =~= strs_view(tr_ids@));
            assert(strs_view(ocr_ids@).to_set() =~= owned_ocr);
            assert(strs_view(tr_ids@).to_set() =~= owned_tr);
        }
        if ocr_ids.len() > 0 || tr_ids.len() > 0 {
            proof {
                if ocr_ids.len() > 0 {
                    assert(strs_view(ocr_ids@).contains(strs_view(ocr_ids@)[0]));
                    assert(owned_ocr.contains(strs_view(ocr_ids@)[0]));
                } else {
                    assert(strs_view(tr_ids@).contains(strs_view(tr_ids@)[0]));
                    assert(owned_tr.contains(strs_view(tr_ids@)[0]));
                }
            }
            Ok(())
        } else {
            proof {
                assert forall|k: Seq<char>| !owned_ocr.contains(k) && !owned_tr.contains(k) by {
                    assert(!strs_view(ocr_ids@).contains(k));
                    assert(!strs_view(tr_ids@).contains(k));
                }
            }
            Err(quoted("No services found for plugin ", plugin_id, ""))
        }
    }

    /// Copies of the registered OCR services, one per identifier.
    pub fn get_ocr_services(&self) -> (r: Vec<OCRServiceInfo>)
        requires
            self.wf(),
        ensures
            lists_str_values(r@.map_values(|s: OCRServiceInfo| s@), self.ocr()),
    {
        let refs = self.ocr_services.value_refs();
        let mut out: Vec<OCRServiceInfo> = Vec::new();
        let mut i: usize = 0;
        while i < refs.len()
            invariant
                i <= refs@.len(),
                out@.len() == i,
                forall|j: int| 0 <= j < i ==> #[trigger] out@[j]@ == refs@[j]@,
            decreases refs@.len() - i,
        {
            out.push(refs[i].clone());
            i = i + 1;
        }
        assert(out@.map_values(|s: OCRServiceInfo| s@) =~= refs@.map_values(|v: &OCRServiceInfo| v@));
        out
    }

    /// Copies of the registered translation services, one per identifier.
    pub fn get_translation_services(&self) -> (r: Vec<TranslationServiceInfo>)
        requires
            self.wf(),
        ensures
            lists_str_values(r@.map_values(|s: TranslationServiceInfo| s@), self.translation()),
    {
        let refs = self.translation_services.value_refs();
        let mut out: Vec<TranslationServiceInfo> = Vec::new();
        let mut i: usize = 0;
        while i < refs.len()
            invariant
                i <= refs@.len(),
                out@.len() == i,
                forall|j: int| 0 <= j < i ==> #[trigger] out@[j]@ == refs@[j]@,
            decreases refs@.len() - i,
        {
            out.push(refs[i].clone());
            i = i + 1;
        }
        assert(out@.map_values(|s: TranslationServiceInfo| s@) =~= refs@.map_values(
            |v: &TranslationServiceInfo| v@,
        ));
        out
    }

    /// A copy of an OCR service, if registered.
    pub fn get_ocr_service(&self, service_id: &str) -> (r: Option<OCRServiceInfo>)
        requires
            self.wf(),
        ensures
            match r {
                Some(s) => self.ocr().contains_key(service_id@) && s@ == self.ocr()[service_id@],
                None => !self.ocr().contains_key(service_id@),
            },
    {
        match self.ocr_services.get(service_id) {
            Some(s) => Some(s.clone()),
            None => None,
        }
    }

    /// A copy of a translation service, if registered.
    pub fn get_translation_service(&self, service_id: &str) -> (r: Option<TranslationServiceInfo>)
        requires
            self.wf(),
        ensures
            match r {
                Some(s) => self.translation().contains_key(service_id@) && s@ == self.translation()[service_id@],
                None => !self.translation().contains_key(service_id@),
            },
    {
        match self.translation_services.get(service_id) {
            Some(s) => Some(s.clone()),
            None => None,
        }
    }

    /// The plugin behind a service, if known.
    pub fn get_plugin_for_service(&self, service_id: &str) -> (r: Option<String>)
        requires
            self.wf(),
        ensures
            match r {
                Some(p) => self.routes().contains_key(service_id@) && p@ == self.routes()[service_id@],
                None => !self.routes().contains_key(service_id@),
            },
    {
        match self.service_to_plugin.get(service_id) {
            Some(p) => Some(p.clone()),
            None => None,
        }
    }

    /// All OCR services and all translation services.
    pub fn list_all_services(&self) -> (r: (Vec<OCRServiceInfo>, Vec<TranslationServiceInfo>))
        requires
            self.wf(),
        ensures
            lists_str_values(r.0@.map_values(|s: OCRServiceInfo| s@), self.ocr()),
            lists_str_values(r.1@.map_values(|s: TranslationServiceInfo| s@), self.translation()),
    {
        (self.get_ocr_services(), self.get_translation_services())
    }

    /// Routes an OCR request to the plugin behind a service. Plugins are not
    /// reachable from this build, so a request for a known service is
    /// answered with an error that says so.
    pub fn process_ocr_with_plugin(&self, service_id: &str, marker_id: u32, image_data: Vec<u8>) -> (r: Result<
        String,
        String,
    >)
        requires
            self.wf(),
        ensures
            r is Err,
            !self.routes().contains_key(service_id@) ==> r->Err_0@ == quoted_message(
                "No plugin found for service "@,
                service_id@,
                ""@,
            ),
            self.routes().contains_key(service_id@) && !self.ocr().contains_key(service_id@) ==> r->Err_0@
                == quoted_message("OCR service "@, service_id@, " not found"@),
            self.routes().contains_key(service_id@) && self.ocr().contains_key(service_id@) ==> r->Err_0@
                == "Plugin OCR not supported in non-WASM environment"@,
    {
        if self.get_plugin_for_service(service_id).is_none() {
            return Err(quoted("No plugin found for service ", service_id, ""));
        }
        if self.get_ocr_service(service_id).is_none() {
            return Err(quoted("OCR service ", service_id, " not found"));
        }
        Err(string_of("Plugin OCR not supported in non-WASM environment"))
    }

    /// Routes a translation request to the plugin behind a service. Plugins
    /// are not reachable from this build, so a request for a known service is
    /// answered with an error that says so.
    pub fn process_translation_with_plugin(
        &self,
        service_id: &str,
        marker_id: u32,
        text: String,
        source_lang: Option<String>,
        target_lang: String,
    ) -> (r: Result<String, String>)
        requires
            self.wf(),
        ensures
            r is Err,
            !self.routes().contains_key(service_id@) ==> r->Err_0@ == quoted_message(
                "No plugin found for service "@,
                service_id@,
                ""@,
            ),
            self.routes().contains_key(service_id@) && !self.translation().contains_key(service_id@) ==> r->Err_0@
                == quoted_message("Translation service "@, service_id@, " not found"@),
            self.routes().contains_key(service_id@) && self.translation().contains_key(service_id@) ==> r->Err_0@
                == "Plugin translation not supported in non-WASM environment"@,
    {
        if self.get_plugin_for_service(service_id).is_none() {
            return Err(quoted("No plugin found for service ", service_id, ""));
        }
        if self.get_translation_service(service_id).is_none() {
            return Err(quoted("Translation service ", service_id, " not found"));
        }
        Err(string_of("Plugin translation not supported in non-WASM environment"))
    }
}

/// A registered OCR service is found again, with its plugin: after a
/// successful registration, the service and its route are what was given.
pub proof fn law_registered_ocr_service_is_found(
    before: BunnyPluginManager,
    after: BunnyPluginManager,
    info: OcrServiceView,
)
    requires
        after.ocr() == before.ocr().insert(info.id, info),
        after.routes() == before.routes().insert(info.id, info.plugin_id),
    ensures
        after.ocr().contains_key(info.id) && after.ocr()[info.id] == info,
        after.routes().contains_key(info.id) && after.routes()[info.id] == info.plugin_id,
{
}

/// Registration refuses a taken identifier: once an OCR service is
/// registered, a second one with the same identifier meets the refusal
/// condition of `register_ocr_service`.
pub proof fn law_duplicate_ocr_registration_is_refused(
    before: BunnyPluginManager,
    after_first: BunnyPluginManager,
    info: OcrServiceView,
    other: OcrServiceView,
)
    requires
        after_first.ocr() == before.ocr().insert(info.id, info),
        other.id == info.id,
    ensures
        after_first.ocr().contains_key(other.id),
{
}

/// Unregistering undoes registering: registering a new OCR service (whose
/// identifier had no route) and then unregistering it leaves the services
/// and routes as they were.
pub proof fn law_unregister_undoes_register(
    before: BunnyPluginManager,
    mid: BunnyPluginManager,
    after: BunnyPluginManager,
    info: OcrServiceView,
)
    requires
        !before.ocr().contains_key(info.id),
        !before.routes().contains_key(info.id),
        mid.ocr() == before.ocr().insert(info.id, info),
        mid.translation() == before.translation(),
        mid.routes() == before.routes().insert(info.id, info.plugin_id),
        after.ocr() == mid.ocr().remove(info.id),
        after.translation() == mid.translation(),
        after.routes() == mid.routes().remove(info.id),
    ensures
        after.ocr() == before.ocr(),
        after.translation() == before.translation(),
        after.routes() == before.routes(),
{
    assert(after.ocr() =~= before.ocr());
    assert(after.routes() =~= before.routes());
}

/// After a plugin's services are unregistered, none of its services is left.
pub proof fn law_no_service_of_unregistered_plugin_remains(
    before: BunnyPluginManager,
    after: BunnyPluginManager,
    plugin_id: Seq<char>,
    k: Seq<char>,
)
    requires
        after.ocr() == before.ocr().remove_keys(ocr_owned_by(before.ocr(), plugin_id)),
        after.translation() == before.translation().remove_keys(translation_owned_by(before.translation(), plugin_id)),
    ensures
        after.ocr().contains_key(k) ==> after.ocr()[k].plugin_id != plugin_id,
        after.translation().contains_key(k) ==> after.translation()[k].plugin_id != plugin_id,
{
}

} // verus!
