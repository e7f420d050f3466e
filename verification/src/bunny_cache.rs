use vstd::prelude::*;
use std::collections::HashMap;
use crate::error::{CoreError, CoreResult};
use crate::ids::MarkerId;
use crate::project::{clone_opt_string, opt_str_view};

verus! {

broadcast use vstd::std_specs::hash::group_hash_axioms;

/// The machine results kept for a marker: recognised text, machine
/// translation, and which model/service produced them.
#[derive(Debug)]
pub struct BunnyCacheData {
    pub marker_id: MarkerId,
    pub original_text: Option<String>,
    pub machine_translation: Option<String>,
    pub last_ocr_model: Option<String>,
    pub last_translation_service: Option<String>,
}

/// The abstract value of a cache entry.
pub struct BunnyCacheView {
    pub marker_id: MarkerId,
    pub original_text: Option<Seq<char>>,
    pub machine_translation: Option<Seq<char>>,
    pub last_ocr_model: Option<Seq<char>>,
    pub last_translation_service: Option<Seq<char>>,
}

impl View for BunnyCacheData {
    type V = BunnyCacheView;

    open spec fn view(&self) -> BunnyCacheView {
        BunnyCacheView {
            marker_id: self.marker_id,
            original_text: opt_str_view(self.original_text),
            machine_translation: opt_str_view(self.machine_translation),
            last_ocr_model: opt_str_view(self.last_ocr_model),
            last_translation_service: opt_str_view(self.last_translation_service),
        }
    }
}

impl Clone for BunnyCacheData {
    fn clone(&self) -> (r: Self)
        ensures
            r@ == self@,
    {
        BunnyCacheData {
            marker_id: self.marker_id,
            original_text: clone_opt_string(&self.original_text),
            machine_translation: clone_opt_string(&self.machine_translation),
            last_ocr_model: clone_opt_string(&self.last_ocr_model),
            last_translation_service: clone_opt_string(&self.last_translation_service),
        }
    }
}

/// An entry with nothing recorded yet.
pub open spec fn empty_entry(marker_id: MarkerId) -> BunnyCacheView {
    BunnyCacheView {
        marker_id,
        original_text: None,
        machine_translation: None,
        last_ocr_model: None,
        last_translation_service: None,
    }
}

impl BunnyCacheData {
    /// An entry with nothing recorded yet.
    pub fn new(marker_id: MarkerId) -> (d: Self)
        ensures
            d@ == empty_entry(marker_id),
    {
        BunnyCacheData {
            marker_id,
            original_text: None,
            machine_translation: None,
            last_ocr_model: None,
            last_translation_service: None,
        }
    }
}

/// The machine results of all markers, keyed by marker.
#[derive(Debug)]
pub struct BunnyCacheStorage {
    pub(crate) cache: HashMap<MarkerId, BunnyCacheData>,
}

impl View for BunnyCacheStorage {
    type V = Map<MarkerId, BunnyCacheView>;

    closed spec fn view(&self) -> Map<MarkerId, BunnyCacheView> {
        self.cache@.map_values(|d: BunnyCacheData| d@)
    }
}

impl BunnyCacheStorage {
    /// An empty cache.
    pub fn new() -> (s: Self)
        ensures
            s@ == Map::<MarkerId, BunnyCacheView>::empty(),
    {
        let s = BunnyCacheStorage { cache: HashMap::new() };
        assert(s@ =~= Map::<MarkerId, BunnyCacheView>::empty());
        s
    }

    /// The entry of a marker, if any.
    pub fn get(&self, key: MarkerId) -> (r: Option<&BunnyCacheData>)
        ensures
            match r {
                Some(d) => self@.contains_key(key) && d@ == self@[key],
                None => !self@.contains_key(key),
            },
    {
        self.cache.get(&key)
    }

    /// Stores an entry, replacing what was there.
    pub fn insert(&mut self, key: MarkerId, value: BunnyCacheData)
        ensures
            final(self)@ == old(self)@.insert(key, value@),
    {
        self.cache.insert(key, value);
        assert(self@ =~= old(self)@.insert(key, value@));
    }

    /// Takes an entry out.
    pub fn remove(&mut self, key: MarkerId) -> (r: Option<BunnyCacheData>)
        ensures
            final(self)@ == old(self)@.remove(key),
            match r {
                Some(d) => old(self)@.contains_key(key) && d@ == old(self)@[key],
                None => !old(self)@.contains_key(key),
            },
    {
        let r = self.cache.remove(&key);
        assert(self@ =~= old(self)@.remove(key));
        r
    }

    /// Whether a marker has an entry.
    pub fn contains(&self, key: MarkerId) -> (r: bool)
        ensures
            r == self@.contains_key(key),
    {
        self.cache.contains_key(&key)
    }

    /// Removes every entry.
    pub fn clear(&mut self)
        ensures
            final(self)@ == Map::<MarkerId, BunnyCacheView>::empty(),
    {
        self.cache.clear();
        assert(self@ =~= Map::<MarkerId, BunnyCacheView>::empty());
    }
}

/// The entry of a marker as it stands, or an empty one.
pub open spec fn entry_or_empty(m: Map<MarkerId, BunnyCacheView>, marker_id: MarkerId) -> BunnyCacheView {
    if m.contains_key(marker_id) {
        m[marker_id]
    } else {
        empty_entry(marker_id)
    }
}

/// A copy of a marker's entry, if any.
pub fn get_bunny_cache_storage(storage: &BunnyCacheStorage, marker_id: MarkerId) -> (r: CoreResult<
    Option<BunnyCacheData>,
>)
    ensures
        match r {
            Ok(Some(d)) => storage@.contains_key(marker_id) && d@ == storage@[marker_id],
            Ok(None) => !storage@.contains_key(marker_id),
            Err(_) => false,
        },
{
    match storage.get(marker_id) {
        Some(d) => Ok(Some(d.clone())),
        None => Ok(None),
    }
}

/// Records recognised text and the model that produced it; the rest of the
/// entry stays.
pub fn update_original_text_storage(
    storage: &mut BunnyCacheStorage,
    marker_id: MarkerId,
    text: String,
    model: String,
) -> (r: CoreResult<()>)
    ensures
        r == Ok::<(), CoreError>(()),
        final(storage)@ == old(storage)@.insert(
            marker_id,
            BunnyCacheView {
                original_text: Some(text@),
                last_ocr_model: Some(model@),
                ..entry_or_empty(old(storage)@, marker_id)
            },
        ),
{
    let mut data = match storage.remove(marker_id) {
        Some(d) => d,
        None => BunnyCacheData::new(marker_id),
    };
    data.original_text = Some(text);
    data.last_ocr_model = Some(model);
    storage.insert(marker_id, data);
    assert(storage@ =~= old(storage)@.insert(
        marker_id,
        BunnyCacheView {
            original_text: Some(text@),
            last_ocr_model: Some(model@),
            ..entry_or_empty(old(storage)@, marker_id)
        },
    ));
    Ok(())
}

/// Records a machine translation and the service that produced it; the
/// rest of the entry stays.
pub fn update_machine_translation_storage(
    storage: &mut BunnyCacheStorage,
    marker_id: MarkerId,
    text: String,
    service: String,
) -> (r: CoreResult<()>)
    ensures
        r == Ok::<(), CoreError>(()),
        final(storage)@ == old(storage)@.insert(
            marker_id,
            BunnyCacheView {
                machine_translation: Some(text@),
                last_translation_service: Some(service@),
                ..entry_or_empty(old(storage)@, marker_id)
            },
        ),
{
    let mut data = match storage.remove(marker_id) {
        Some(d) => d,
        None => BunnyCacheData::new(marker_id),
    };
    data.machine_translation = Some(text);
    data.last_translation_service = Some(service);
    storage.insert(marker_id, data);
    assert(storage@ =~= old(storage)@.insert(
        marker_id,
        BunnyCacheView {
            machine_translation: Some(text@),
            last_translation_service: Some(service@),
            ..entry_or_empty(old(storage)@, marker_id)
        },
    ));
    Ok(())
}

/// Forgets a marker's entry.
pub fn clear_bunny_cache_storage(storage: &mut BunnyCacheStorage, marker_id: MarkerId) -> (r: CoreResult<()>)
    ensures
        r == Ok::<(), CoreError>(()),
        final(storage)@ == old(storage)@.remove(marker_id),
{
    let _ = storage.remove(marker_id);
    Ok(())
}

/// Forgets every entry.
pub fn clear_all_bunny_cache_storage(storage: &mut BunnyCacheStorage) -> (r: CoreResult<()>)
    ensures
        r == Ok::<(), CoreError>(()),
        final(storage)@ == Map::<MarkerId, BunnyCacheView>::empty(),
{
    storage.clear();
    Ok(())
}

/// Law: recording recognised text leaves any machine translation of the
/// marker as it was, and vice versa.
pub proof fn law_recognition_keeps_translation(
    m: Map<MarkerId, BunnyCacheView>,
    marker_id: MarkerId,
    text: Seq<char>,
    model: Seq<char>,
)
    ensures
        ({
            let after = m.insert(
                marker_id,
                BunnyCacheView {
                    original_text: Some(text),
                    last_ocr_model: Some(model),
                    ..entry_or_empty(m, marker_id)
                },
            );
            &&& after[marker_id].machine_translation == entry_or_empty(m, marker_id).machine_translation
            &&& after[marker_id].last_translation_service == entry_or_empty(
                m,
                marker_id,
            ).last_translation_service
            &&& after[marker_id].original_text == Some(text)
        }),
{
}

} // verus!
