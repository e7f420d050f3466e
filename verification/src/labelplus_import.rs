use vstd::prelude::*;
use std::collections::HashMap;
use crate::error::{CoreError, CoreResult};
use crate::ids::{IdGenerator, ImageId, MarkerId, ProjectId};
use crate::image::ImageView;
use crate::marker::{Marker, MarkerGeometry, MarkerStyle, MarkerView};
use crate::state::{AppState, ImageStorage, MarkerStorage, MarkerStorageView};
use crate::strmap::StrMap;
use crate::text::{decimal, push_decimal, push_str, string_from_chars, str_equal};
use crate::labelplus::{LabelplusData, LabelplusPage, LpMarkerView, MarkerTypeStyleConfig, cfg, default_type_mappings,
    get_default_style_mapping, mapping_views, type_views};
use crate::marker_service::inserted_all;
use crate::collections::{map_keys, enumerates, lemma_remove_insert};

verus! {

broadcast use vstd::std_specs::hash::group_hash_axioms;

/// The error for an unknown project.
pub open spec fn project_not_found_text(id: ProjectId) -> Seq<char> {
    "Project with id "@ + decimal(id as nat) + " not found"@
}

/// Whether `e` is the not-found error for project `id`.
pub open spec fn is_project_not_found(e: CoreError, id: ProjectId) -> bool {
    e matches CoreError::NotFound(m) && m@ == project_not_found_text(id)
}

/// The not-found error for a project.
pub fn project_not_found(id: ProjectId) -> (e: CoreError)
    ensures
        is_project_not_found(e, id),
{
    let mut m: Vec<char> = Vec::new();
    push_str(&mut m, "Project with id ");
    push_decimal(&mut m, id as u64);
    push_str(&mut m, " not found");
    assert(m@ =~= project_not_found_text(id));
    CoreError::NotFound(string_from_chars(&m))
}

/// The name a page goes by in a LabelPlus file: its own, or `image_{id}`.
pub open spec fn lp_image_name(id: ImageId, img: ImageView) -> Seq<char> {
    match img.metadata.name {
        Some(n) => n,
        None => "image_"@ + decimal(id as nat),
    }
}

/// Page names to images for a project's stored pages, in page order (a
/// later page of the same name wins).
pub open spec fn names_to_ids(ids: Seq<ImageId>, images: Map<ImageId, ImageView>) -> Map<Seq<char>, ImageId>
    decreases ids.len(),
{
    if ids.len() == 0 {
        Map::empty()
    } else {
        let prev = names_to_ids(ids.drop_last(), images);
        let id = ids.last();
        if images.contains_key(id) {
            prev.insert(lp_image_name(id, images[id]), id)
        } else {
            prev
        }
    }
}

/// Type numbers to type names (a later type of the same number wins).
pub open spec fn type_name_map(types: Seq<(u32, Seq<char>)>) -> Map<u32, Seq<char>>
    decreases types.len(),
{
    if types.len() == 0 {
        Map::empty()
    } else {
        type_name_map(types.drop_last()).insert(types.last().0, types.last().1)
    }
}

/// The layout of the first mapping from position `i` on with this name.
pub open spec fn first_style_from(
    ms: Seq<(Seq<char>, MarkerTypeStyleConfig)>,
    name: Seq<char>,
    i: int,
) -> Option<MarkerTypeStyleConfig>
    decreases ms.len() - i,
{
    if i < 0 || i >= ms.len() {
        None
    } else if ms[i].0 == name {
        Some(ms[i].1)
    } else {
        first_style_from(ms, name, i + 1)
    }
}

/// The layout of an imported marker: that of the first built-in mapping
/// named like its type, or the fallback.
pub open spec fn lp_style(type_id: u32, tn: Map<u32, Seq<char>>) -> MarkerStyle {
    let c = if tn.contains_key(type_id) {
        match first_style_from(default_type_mappings(), tn[type_id], 0) {
            Some(c) => c,
            None => cfg(false, false),
        }
    } else {
        cfg(false, false)
    };
    MarkerStyle { overlay_text: c.overlay_text, horizontal: c.horizontal }
}

/// The `k`-th identifier handed out from `start` (identifiers wrap).
pub open spec fn nth_id(start: u32, k: int) -> u32 {
    ((start + k) % 4294967296) as u32
}

/// The markers a page section becomes: fresh identifiers from the `first`-th
/// on, a point at the given percentages, the text, the type's layout and
/// the number of the file.
pub open spec fn page_markers(
    ms: Seq<LpMarkerView>,
    image_id: ImageId,
    tn: Map<u32, Seq<char>>,
    first: int,
    start: u32,
) -> Seq<MarkerView> {
    Seq::new(
        ms.len(),
        |j: int|
            MarkerView {
                id: nth_id(start, first + j),
                image_id,
                geometry: MarkerGeometry::Point { x: ms[j].px, y: ms[j].py },
                translation: ms[j].translation,
                style: lp_style(ms[j].type_id, tn),
                image_index: ms[j].image_index,
            },
    )
}

/// The identifiers of some markers.
pub open spec fn ids_of(ms: Seq<MarkerView>) -> Seq<MarkerId> {
    ms.map_values(|m: MarkerView| m.id)
}

/// The markers the sections named by `keys` become (sections whose name
/// is not a page of the project are skipped), and per page the identifiers
/// of its new markers.
pub open spec fn imports(
    keys: Seq<Seq<char>>,
    pages: Map<Seq<char>, Seq<LpMarkerView>>,
    n2id: Map<Seq<char>, ImageId>,
    tn: Map<u32, Seq<char>>,
    start: u32,
) -> (Seq<MarkerView>, Map<ImageId, Seq<MarkerId>>)
    decreases keys.len(),
{
    if keys.len() == 0 {
        (Seq::empty(), Map::empty())
    } else {
        let prev = imports(keys.drop_last(), pages, n2id, tn, start);
        let name = keys.last();
        if n2id.contains_key(name) {
            let ms = page_markers(pages[name], n2id[name], tn, prev.0.len() as int, start);
            (prev.0 + ms, prev.1.insert(n2id[name], ids_of(ms)))
        } else {
            prev
        }
    }
}

/// The images after the new marker identifiers are appended to their
/// marker lists.
pub open spec fn with_appended(imgs: Map<ImageId, ImageView>, ups: Map<ImageId, Seq<MarkerId>>) -> Map<
    ImageId,
    ImageView,
> {
    Map::new(
        |k: ImageId| imgs.contains_key(k),
        |k: ImageId|
            if ups.contains_key(k) {
                ImageView { marker_ids: imgs[k].marker_ids + ups[k], ..imgs[k] }
            } else {
                imgs[k]
            },
    )
}

/// The name a page goes by in a LabelPlus file.
fn lp_image_name_exec(id: ImageId, name: &Option<String>) -> (r: String)
    ensures
        r@ == (match *name {
            Some(n) => n@,
            None => "image_"@ + decimal(id as nat),
        }),
{
    match name {
        Some(n) => n.clone(),
        None => {
            let mut m: Vec<char> = Vec::new();
            push_str(&mut m, "image_");
            push_decimal(&mut m, id as u64);
            string_from_chars(&m)
        },
    }
}

/// The layout of the first mapping with this name.
fn first_style_exec(mappings: &Vec<crate::labelplus::MarkerTypeMapping>, name: &String) -> (r: Option<
    MarkerTypeStyleConfig,
>)
    requires
        mapping_views(mappings@) == default_type_mappings(),
    ensures
        r == first_style_from(default_type_mappings(), name@, 0),
{
    let mut i: usize = 0;
    while i < mappings.len()
        invariant
            i <= mappings@.len(),
            mapping_views(mappings@) == default_type_mappings(),
            first_style_from(default_type_mappings(), name@, i as int) == first_style_from(
                default_type_mappings(),
                name@,
                0,
            ),
        decreases mappings@.len() - i,
    {
        assert(mapping_views(mappings@)[i as int] == (mappings@[i as int].name@, mappings@[i as int].style));
        if str_equal(mappings[i].name.as_str(), name.as_str()) {
            return Some(mappings[i].style);
        }
        i = i + 1;
    }
    None
}

/// The layout of an imported marker.
fn lp_style_exec(type_id: u32, tn: &HashMap<u32, String>, mappings: &Vec<crate::labelplus::MarkerTypeMapping>) -> (r:
    MarkerStyle)
    requires
        mapping_views(mappings@) == default_type_mappings(),
    ensures
        r == lp_style(type_id, tn@.map_values(|s: String| s@)),
{
    let c = match tn.get(&type_id) {
        Some(name) => match first_style_exec(mappings, name) {
            Some(c) => c,
            None => MarkerTypeStyleConfig { overlay_text: false, horizontal: false },
        },
        None => MarkerTypeStyleConfig { overlay_text: false, horizontal: false },
    };
    MarkerStyle { overlay_text: c.overlay_text, horizontal: c.horizontal }
}

/// Lemma: the identifier after the `k`-th is the `k + 1`-th.
pub proof fn lemma_nth_id_step(start: u32, k: int)
    requires
        k >= 0,
    ensures
        nth_id(start, k + 1) == (if nth_id(start, k) == u32::MAX {
            0
        } else {
            (nth_id(start, k) + 1) as u32
        }),
{
    let m: int = 4294967296;
    let v = (start + k) % m;
    vstd::arithmetic::div_mod::lemma_add_mod_noop(start + k, 1, m);
    vstd::arithmetic::div_mod::lemma_small_mod(1, m as nat);
    assert(0 <= v < m);
    if v + 1 < m {
        vstd::arithmetic::div_mod::lemma_small_mod((v + 1) as nat, m as nat);
    } else {
        assert(v + 1 == m);
        vstd::arithmetic::div_mod::lemma_mod_self_0(m);
    }
}

/// Lemma: the first identifier handed out is the start.
pub proof fn lemma_nth_id_zero(start: u32)
    ensures
        nth_id(start, 0) == start,
{
    vstd::arithmetic::div_mod::lemma_small_mod(start as nat, 4294967296);
}

/// What importing a LabelPlus file into an existing project does to the
/// state (see `imports`): new markers, appended to the pages' lists, and
/// fresh identifiers; the projects and the rest stay.
pub open spec fn labelplus_imported(o: AppState, f: AppState, project_id: ProjectId, d: LabelplusData) -> bool {
    let n2id = names_to_ids(o.projects@[project_id].image_ids, o.images@.images);
    let tn = type_name_map(type_views(d.marker_types@));
    let res = imports(d.markers_by_image.keys(), d.markers_by_image.map(), n2id, tn, o.marker_ids.peek());
    &&& f.markers@ == inserted_all(o.markers@, res.0)
    &&& f.images@.images == with_appended(o.images@.images, res.1)
    &&& f.images@.current_memory == o.images@.current_memory
    &&& f.images@.max_memory == o.images@.max_memory
    &&& f.marker_ids.peek() == nth_id(o.marker_ids.peek(), res.0.len() as int)
    &&& f.projects@ == o.projects@
    &&& f.thumbnails@ == o.thumbnails@
    &&& f.bunny_cache@ == o.bunny_cache@
    &&& f.project_ids == o.project_ids
    &&& f.image_ids == o.image_ids
}

/// Puts the markers of a LabelPlus file onto the pages of a project whose
/// names match its sections (see `imports`): fresh identifiers, in file
/// order, appended to the pages' lists and the images' marker lists. An
/// unknown project is an error and nothing changes.
pub fn import_labelplus_data_direct(state: &mut AppState, project_id: ProjectId, labelplus_data: LabelplusData) -> (r:
    CoreResult<()>)
    requires
        labelplus_data.markers_by_image.wf(),
    ensures
        !old(state).projects@.contains_key(project_id) ==> {
            &&& r matches Err(e) && is_project_not_found(e, project_id)
            &&& final(state).markers@ == old(state).markers@
            &&& final(state).images@ == old(state).images@
            &&& final(state).marker_ids == old(state).marker_ids
        },
        old(state).projects@.contains_key(project_id) ==> {
            let n2id = names_to_ids(old(state).projects@[project_id].image_ids, old(state).images@.images);
            let tn = type_name_map(type_views(labelplus_data.marker_types@));
            let res = imports(
                labelplus_data.markers_by_image.keys(),
                labelplus_data.markers_by_image.map(),
                n2id,
                tn,
                old(state).marker_ids.peek(),
            );
            &&& r == Ok::<(), CoreError>(())
            &&& final(state).markers@ == inserted_all(old(state).markers@, res.0)
            &&& final(state).images@.images == with_appended(old(state).images@.images, res.1)
            &&& final(state).images@.current_memory == old(state).images@.current_memory
            &&& final(state).images@.max_memory == old(state).images@.max_memory
            &&& final(state).marker_ids.peek() == nth_id(old(state).marker_ids.peek(), res.0.len() as int)
        },
        final(state).projects@ == old(state).projects@,
        final(state).thumbnails@ == old(state).thumbnails@,
        final(state).bunny_cache@ == old(state).bunny_cache@,
        final(state).project_ids == old(state).project_ids,
        final(state).image_ids == old(state).image_ids,
        old(state).projects@.contains_key(project_id) ==> labelplus_imported(
            *old(state),
            *final(state),
            project_id,
            labelplus_data,
        ),
{
    let image_ids = match state.projects.get(project_id) {
        Some(p) => p.image_ids.clone(),
        None => {
            return Err(project_not_found(project_id));
        },
    };
    let ghost imgs = old(state).images@.images;
    let mut n2id: StrMap<u32> = StrMap::new();
    let mut i: usize = 0;
    while i < image_ids.len()
        invariant
            i <= image_ids@.len(),
            state.images@.images == imgs,
            n2id.wf(),
            n2id.map() == names_to_ids(image_ids@.take(i as int), imgs),
        decreases image_ids@.len() - i,
    {
        assert(image_ids@.take(i as int + 1).drop_last() =~= image_ids@.take(i as int));
        let id = image_ids[i];
        match state.images.get(id) {
            Some(img) => {
                let name = lp_image_name_exec(id, &img.metadata.name);
                n2id.insert(name, id);
            },
            None => {},
        }
        i = i + 1;
    }
    assert(image_ids@.take(image_ids@.len() as int) =~= image_ids@);
    let ghost n2idv = n2id.map();
    let types = &labelplus_data.marker_types;
    let ghost tv = type_views(types@);
    let mut tn: HashMap<u32, String> = HashMap::new();
    let mut t: usize = 0;
    while t < types.len()
        invariant
            t <= types@.len(),
            tv == type_views(types@),
            tn@.map_values(|s: String| s@) == type_name_map(tv.take(t as int)),
        decreases types@.len() - t,
    {
        assert(tv.take(t as int + 1).drop_last() =~= tv.take(t as int));
        tn.insert(types[t].id, types[t].name.clone());
        assert(tn@.map_values(|s: String| s@) =~= type_name_map(tv.take(t as int + 1)));
        t = t + 1;
    }
    assert(tv.take(types@.len() as int) =~= tv);
    let ghost tnv = tn@.map_values(|s: String| s@);
    let mapping = get_default_style_mapping();
    let entries = labelplus_data.markers_by_image.entry_refs();
    let ghost keys = labelplus_data.markers_by_image.keys();
    let ghost pages = labelplus_data.markers_by_image.map();
    let ghost start = state.marker_ids.peek();
    proof {
        lemma_nth_id_zero(start);
    }
    let mut ups: HashMap<u32, Vec<u32>> = HashMap::new();
    let ghost mut ms: Seq<MarkerView> = Seq::empty();
    assert(ups@.map_values(|v: Vec<u32>| v@) =~= Map::<ImageId, Seq<MarkerId>>::empty());
    let mut e: usize = 0;
    while e < entries.len()
        invariant
            e <= entries@.len(),
            entries@.len() == keys.len(),
            forall|k: int| 0 <= k < entries@.len() ==> #[trigger] entries@[k].0@ == keys[k],
            forall|k: int| 0 <= k < entries@.len() ==> #[trigger] entries@[k].1@ == pages[keys[k]],
            n2id.wf(),
            n2id.map() == n2idv,
            tn@.map_values(|s: String| s@) == tnv,
            mapping_views(mapping.type_mappings@) == default_type_mappings(),
            (ms, ups@.map_values(|v: Vec<u32>| v@)) == imports(keys.take(e as int), pages, n2idv, tnv, start),
            state.markers@ == inserted_all(old(state).markers@, ms),
            state.marker_ids.peek() == nth_id(start, ms.len() as int),
            state.images@ == old(state).images@,
            state.projects@ == old(state).projects@,
            state.thumbnails@ == old(state).thumbnails@,
            state.bunny_cache@ == old(state).bunny_cache@,
            state.project_ids == old(state).project_ids,
            state.image_ids == old(state).image_ids,
        decreases entries@.len() - e,
    {
        let (name, page) = entries[e];
        assert(keys.take(e as int + 1).drop_last() =~= keys.take(e as int));
        assert(keys.take(e as int + 1).last() == name@);
        match n2id.get(name.as_str()) {
            Some(img_ref) => {
                let img = *img_ref;
                let ghost pv = page@;
                let ghost first = ms.len() as int;
                let ghost newms = page_markers(pv, img, tnv, first, start);
                let mut ids: Vec<u32> = Vec::new();
                let mut j: usize = 0;
                while j < page.markers.len()
                    invariant
                        j <= page.markers@.len(),
                        pv == page@,
                        newms == page_markers(pv, img, tnv, first, start),
                        first == ms.len(),
                        tn@.map_values(|s: String| s@) == tnv,
                        mapping_views(mapping.type_mappings@) == default_type_mappings(),
                        state.markers@ == inserted_all(old(state).markers@, ms + newms.take(j as int)),
                        state.marker_ids.peek() == nth_id(start, first + j),
                        ids@ == ids_of(newms.take(j as int)),
                        state.images@ == old(state).images@,
                        state.projects@ == old(state).projects@,
                        state.thumbnails@ == old(state).thumbnails@,
                        state.bunny_cache@ == old(state).bunny_cache@,
                        state.project_ids == old(state).project_ids,
                        state.image_ids == old(state).image_ids,
                    decreases page.markers@.len() - j,
                {
                    let lm = &page.markers[j];
                    proof {
                        lemma_nth_id_step(start, first + j);
                        assert((ms + newms.take(j as int + 1)).drop_last() =~= ms + newms.take(j as int));
                        assert(ids_of(newms.take(j as int + 1)).drop_last() =~= ids_of(newms.take(j as int)));
                    }
                    let id = state.marker_ids.next();
                    let style = lp_style_exec(lm.type_id, &tn, &mapping.type_mappings);
                    let marker = Marker {
                        id,
                        image_id: img,
                        geometry: MarkerGeometry::Point { x: lm.px, y: lm.py },
                        translation: lm.translation.clone(),
                        style,
                        image_index: lm.image_index,
                    };
                    assert(marker@ == newms[j as int]);
                    state.markers.insert_with_image(marker);
                    ids.push(id);
                    j = j + 1;
                    assert(ids@ =~= ids_of(newms.take(j as int)));
                }
                assert(newms.take(page.markers@.len() as int) =~= newms);
                ups.insert(img, ids);
                proof {
                    ms = ms + newms;
                }
                assert(ups@.map_values(|v: Vec<u32>| v@) =~= imports(keys.take(e as int + 1), pages, n2idv, tnv, start).1);
            },
            None => {},
        }
        e = e + 1;
    }
    assert(keys.take(entries@.len() as int) =~= keys);
    let ghost upv = ups@.map_values(|v: Vec<u32>| v@);
    let ukeys = map_keys(&ups);
    let mut k: usize = 0;
    while k < ukeys.len()
        invariant
            k <= ukeys@.len(),
            enumerates(ukeys@, ups@.dom()),
            upv == ups@.map_values(|v: Vec<u32>| v@),
            state.images@.current_memory == old(state).images@.current_memory,
            state.images@.max_memory == old(state).images@.max_memory,
            state.images@.images == Map::new(
                |x: ImageId| old(state).images@.images.contains_key(x),
                |x: ImageId|
                    if upv.contains_key(x) && ukeys@.take(k as int).contains(x) {
                        ImageView {
                            marker_ids: old(state).images@.images[x].marker_ids + upv[x],
                            ..old(state).images@.images[x]
                        }
                    } else {
                        old(state).images@.images[x]
                    },
            ),
            state.markers@ == inserted_all(old(state).markers@, ms),
            state.marker_ids.peek() == nth_id(start, ms.len() as int),
            state.projects@ == old(state).projects@,
            state.thumbnails@ == old(state).thumbnails@,
            state.bunny_cache@ == old(state).bunny_cache@,
            state.project_ids == old(state).project_ids,
            state.image_ids == old(state).image_ids,
        decreases ukeys@.len() - k,
    {
        let key = ukeys[k];
        let ghost before = state.images@.images;
        assert(ups@.dom().contains(key));
        let add = ups.get(&key).unwrap();
        assert(add@ == upv[key]);
        assert(upv.contains_key(key));
        assert(before.contains_key(key) ==> before[key] == old(state).images@.images[key]);
        proof {
            assert(ukeys@.take(k as int + 1) =~= ukeys@.take(k as int).push(key));
            assert forall|x: ImageId| #[trigger] ukeys@.take(k as int + 1).contains(x) == (ukeys@.take(k as int).contains(x)
                || x == key) by {
                let a = ukeys@.take(k as int);
                if a.push(key).contains(x) {
                    let j = choose|j: int| 0 <= j < a.push(key).len() && a.push(key)[j] == x;
                    if j < a.len() {
                        assert(a[j] == x);
                    }
                }
                if a.contains(x) {
                    let j = choose|j: int| 0 <= j < a.len() && a[j] == x;
                    assert(a.push(key)[j] == x);
                }
                if x == key {
                    assert(a.push(key)[a.len() as int] == x);
                }
            }
            assert(!ukeys@.take(k as int).contains(key)) by {
                if ukeys@.take(k as int).contains(key) {
                    let j = choose|j: int| 0 <= j < k && ukeys@.take(k as int)[j] == key;
                    assert(ukeys@[j] == ukeys@[k as int]);
                }
            }
        }
        match state.images.take(key) {
            Some(mut image) => {
                let mut q: usize = 0;
                let ghost base = image.marker_ids@;
                let ghost iv = image@;
                while q < add.len()
                    invariant
                        q <= add@.len(),
                        image.marker_ids@ == base + add@.take(q as int),
                        image@ == (ImageView { marker_ids: base + add@.take(q as int), ..iv }),
                    decreases add@.len() - q,
                {
                    image.marker_ids.push(add[q]);
                    q = q + 1;
                    assert(image.marker_ids@ =~= base + add@.take(q as int));
                }
                assert(add@.take(add@.len() as int) =~= add@);
                state.images.put(key, image);
                proof {
                    lemma_remove_insert(before, key, state.images@.images[key]);
                    assert(state.images@.images[key] == ImageView {
                        marker_ids: old(state).images@.images[key].marker_ids + upv[key],
                        ..old(state).images@.images[key]
                    });
                }
            },
            None => {
                assert(state.images@.images =~= before);
            },
        }
        k = k + 1;
        assert(state.images@.images =~= Map::new(
            |x: ImageId| old(state).images@.images.contains_key(x),
            |x: ImageId|
                if upv.contains_key(x) && ukeys@.take(k as int).contains(x) {
                    ImageView {
                        marker_ids: old(state).images@.images[x].marker_ids + upv[x],
                        ..old(state).images@.images[x]
                    }
                } else {
                    old(state).images@.images[x]
                },
        ));
    }
    assert(ukeys@.take(ukeys@.len() as int) =~= ukeys@);
    assert(state.images@.images =~= with_appended(old(state).images@.images, upv));
    Ok(())
}

} // verus!
