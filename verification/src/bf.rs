use vstd::prelude::*;
use crate::clock::get_timestamp_millis;
use std::collections::HashMap;
use crate::error::{CoreError, CoreResult};
use crate::ids::{ImageId, MarkerId, ProjectId};
use crate::image::ImageView;
use crate::language::Language;
use crate::marker::{Marker, MarkerGeometry, MarkerStyle, MarkerView};
use crate::project::{ProjectView, opt_str_view, clone_opt_string, update_project_file_path_storage};
use crate::state::{AppState, MarkerStorageView};
use crate::strmap::StrMap;
use crate::text::{decimal, push_decimal, push_str, string_from_chars, string_of, str_equal, chars_of};
use crate::textscan::starts_with;
use crate::marker_service::inserted_all;
use crate::labelplus_import::{nth_id, ids_of, with_appended, project_not_found, is_project_not_found,
    lemma_nth_id_step, lemma_nth_id_zero};
use crate::labelplus_export::first_index;
use crate::collections::{map_keys, enumerates, lemma_remove_insert};

verus! {

broadcast use vstd::std_specs::hash::group_hash_axioms;

/// The head of a project file.
#[derive(Debug)]
pub struct ProjectMetadata {
    pub format_version: String,
    pub export_date: String,
    pub project_name: String,
    pub source_language: Option<Language>,
    pub target_language: Option<Language>,
}

/// A layout in a project file, named by an identifier.
#[derive(Debug)]
pub struct StyleEntry {
    pub id: String,
    pub overlay_text: bool,
    pub horizontal: bool,
}

/// A page in a project file: its file name and, if known, its checksum
/// (`md5:` and the hexadecimal digest).
#[derive(Debug)]
pub struct ImageEntry {
    pub filename: String,
    pub checksum: Option<String>,
}

/// A marker in a project file. Positions and sizes are percentages of the
/// page as `f64` bit patterns.
#[derive(Debug)]
pub enum MarkerEntry {
    Point { position: (u64, u64), style: String, text: String },
    Rectangle { position: (u64, u64), size: (u64, u64), style: String, text: String },
}

/// The contents of a project file.
#[derive(Debug)]
pub struct BfProjectData {
    pub metadata: ProjectMetadata,
    pub styles: Vec<StyleEntry>,
    pub images: Vec<ImageEntry>,
    pub markers: Vec<Vec<MarkerEntry>>,
}

/// The abstract value of a marker entry.
pub enum MarkerEntryView {
    Point { position: (u64, u64), style: Seq<char>, text: Seq<char> },
    Rectangle { position: (u64, u64), size: (u64, u64), style: Seq<char>, text: Seq<char> },
}

impl View for MarkerEntry {
    type V = MarkerEntryView;

    open spec fn view(&self) -> MarkerEntryView {
        match *self {
            MarkerEntry::Point { position, style, text } => MarkerEntryView::Point {
                position,
                style: style@,
                text: text@,
            },
            MarkerEntry::Rectangle { position, size, style, text } => MarkerEntryView::Rectangle {
                position,
                size,
                style: style@,
                text: text@,
            },
        }
    }
}

/// The views of a page's marker entries.
pub open spec fn entry_views(v: Seq<MarkerEntry>) -> Seq<MarkerEntryView> {
    v.map_values(|e: MarkerEntry| e@)
}

/// The views of all pages' marker entries.
pub open spec fn entry_lists(v: Seq<Vec<MarkerEntry>>) -> Seq<Seq<MarkerEntryView>> {
    v.map_values(|l: Vec<MarkerEntry>| entry_views(l@))
}

/// The layouts of a file as `(identifier, overlay, horizontal)`.
pub open spec fn style_views(v: Seq<StyleEntry>) -> Seq<(Seq<char>, bool, bool)> {
    v.map_values(|s: StyleEntry| (s.id@, s.overlay_text, s.horizontal))
}

/// The pages of a file as `(file name, checksum)`.
pub open spec fn image_entry_views(v: Seq<ImageEntry>) -> Seq<(Seq<char>, Option<Seq<char>>)> {
    v.map_values(|e: ImageEntry| (e.filename@, opt_str_view(e.checksum)))
}

/// The message for marker and page lists of different lengths.
pub open spec fn length_mismatch_text(markers: nat, images: nat) -> Seq<char> {
    "Markers array length ("@ + decimal(markers) + ") doesn't match images array length ("@ + decimal(images)
        + ")"@
}

/// Checks that a project file read in has one marker list per page:
/// otherwise the error names both lengths.
pub fn check_bf_data(
    metadata: ProjectMetadata,
    styles: Vec<StyleEntry>,
    images: Vec<ImageEntry>,
    markers: Vec<Vec<MarkerEntry>>,
) -> (r: CoreResult<BfProjectData>)
    ensures
        markers@.len() != images@.len() ==> (r matches Err(CoreError::ValidationFailed { field, reason }) && field@
            == "markers"@ && reason@ == length_mismatch_text(markers@.len(), images@.len())),
        markers@.len() == images@.len() ==> (r matches Ok(d) && d.styles@ == styles@ && d.images@ == images@
            && d.markers@ == markers@ && d.metadata == metadata),
{
    if markers.len() != images.len() {
        let mut m: Vec<char> = Vec::new();
        push_str(&mut m, "Markers array length (");
        push_decimal(&mut m, markers.len() as u64);
        push_str(&mut m, ") doesn't match images array length (");
        push_decimal(&mut m, images.len() as u64);
        push_str(&mut m, ")");
        assert(m@ =~= length_mismatch_text(markers@.len(), images@.len()));
        return Err(CoreError::ValidationFailed { field: string_of("markers"), reason: string_from_chars(&m) });
    }
    Ok(BfProjectData { metadata, styles, images, markers })
}

/// A checksum without its `md5:` prefix (when it has one).
pub open spec fn strip_md5(c: Seq<char>) -> Seq<char> {
    if starts_with(c, "md5:"@) {
        c.subrange(4, c.len() as int)
    } else {
        c
    }
}

/// The first stored page of `ids` (from position `i` on) whose checksum is
/// `cs`.
pub open spec fn match_checksum(ids: Seq<ImageId>, images: Map<ImageId, ImageView>, cs: Seq<char>, i: int) -> Option<
    ImageId,
>
    decreases ids.len() - i,
{
    if i < 0 || i >= ids.len() {
        None
    } else if images.contains_key(ids[i]) && images[ids[i]].metadata.checksum == Some(cs) {
        Some(ids[i])
    } else {
        match_checksum(ids, images, cs, i + 1)
    }
}

/// The first stored page of `ids` (from position `i` on) named `name`.
pub open spec fn match_name(ids: Seq<ImageId>, images: Map<ImageId, ImageView>, name: Seq<char>, i: int) -> Option<
    ImageId,
>
    decreases ids.len() - i,
{
    if i < 0 || i >= ids.len() {
        None
    } else if images.contains_key(ids[i]) && images[ids[i]].metadata.name == Some(name) {
        Some(ids[i])
    } else {
        match_name(ids, images, name, i + 1)
    }
}

/// The project page a file page goes to: by checksum first, then by name.
pub open spec fn matched_image(
    ids: Seq<ImageId>,
    images: Map<ImageId, ImageView>,
    entry: (Seq<char>, Option<Seq<char>>),
) -> Option<ImageId> {
    let by_cs = match entry.1 {
        Some(c) => match_checksum(ids, images, strip_md5(c), 0),
        None => None,
    };
    match by_cs {
        Some(id) => Some(id),
        None => match_name(ids, images, entry.0, 0),
    }
}

/// Layout identifiers to layouts (a later layout of the same identifier
/// wins).
pub open spec fn bf_style_map(styles: Seq<(Seq<char>, bool, bool)>) -> Map<Seq<char>, MarkerStyle>
    decreases styles.len(),
{
    if styles.len() == 0 {
        Map::empty()
    } else {
        bf_style_map(styles.drop_last()).insert(
            styles.last().0,
            MarkerStyle { overlay_text: styles.last().1, horizontal: styles.last().2 },
        )
    }
}

/// The layout of a marker entry: the one its identifier names, or the
/// default.
pub open spec fn bf_style(m: Map<Seq<char>, MarkerStyle>, id: Seq<char>) -> MarkerStyle {
    if m.contains_key(id) {
        m[id]
    } else {
        MarkerStyle { overlay_text: false, horizontal: false }
    }
}

/// The layout identifier and text of an entry.
pub open spec fn entry_style(e: MarkerEntryView) -> Seq<char> {
    match e {
        MarkerEntryView::Point { style, .. } => style,
        MarkerEntryView::Rectangle { style, .. } => style,
    }
}

/// The text of an entry.
pub open spec fn entry_text(e: MarkerEntryView) -> Seq<char> {
    match e {
        MarkerEntryView::Point { text, .. } => text,
        MarkerEntryView::Rectangle { text, .. } => text,
    }
}

/// The geometry of an entry.
pub open spec fn entry_geometry(e: MarkerEntryView) -> MarkerGeometry {
    match e {
        MarkerEntryView::Point { position, .. } => MarkerGeometry::Point { x: position.0, y: position.1 },
        MarkerEntryView::Rectangle { position, size, .. } => MarkerGeometry::Rectangle {
            x: position.0,
            y: position.1,
            width: size.0,
            height: size.1,
        },
    }
}

/// The markers a page's entries become: fresh identifiers from the
/// `first`-th on, numbered 1, 2, 3, ... in file order.
pub open spec fn bf_page_markers(
    es: Seq<MarkerEntryView>,
    image_id: ImageId,
    sm: Map<Seq<char>, MarkerStyle>,
    first: int,
    start: u32,
) -> Seq<MarkerView> {
    Seq::new(
        es.len(),
        |j: int|
            MarkerView {
                id: nth_id(start, first + j),
                image_id,
                geometry: entry_geometry(es[j]),
                translation: entry_text(es[j]),
                style: bf_style(sm, entry_style(es[j])),
                image_index: (j + 1) as u32,
            },
    )
}

/// The markers the first `n` pages of a file become (pages that match no
/// project page are skipped), and per project page the identifiers of its
/// new markers (pages without markers are left out).
pub open spec fn bf_imports(
    lists: Seq<Seq<MarkerEntryView>>,
    mapping: Seq<Option<ImageId>>,
    sm: Map<Seq<char>, MarkerStyle>,
    start: u32,
    n: int,
) -> (Seq<MarkerView>, Map<ImageId, Seq<MarkerId>>)
    decreases n,
{
    if n <= 0 {
        (Seq::empty(), Map::empty())
    } else {
        let prev = bf_imports(lists, mapping, sm, start, n - 1);
        match mapping[n - 1] {
            Some(img) => {
                let ms = bf_page_markers(lists[n - 1], img, sm, prev.0.len() as int, start);
                (prev.0 + ms, if ms.len() > 0 {
                    prev.1.insert(img, ids_of(ms))
                } else {
                    prev.1
                })
            },
            None => prev,
        }
    }
}

/// The images after new marker identifiers are appended to their lists.
pub fn append_marker_ids(images: &mut crate::state::ImageStorage, ups: &HashMap<u32, Vec<u32>>)
    ensures
        final(images)@.images == with_appended(old(images)@.images, ups@.map_values(|v: Vec<u32>| v@)),
        final(images)@.current_memory == old(images)@.current_memory,
        final(images)@.max_memory == old(images)@.max_memory,
{
    let ghost upv = ups@.map_values(|v: Vec<u32>| v@);
    let ukeys = map_keys(ups);
    let mut k: usize = 0;
    while k < ukeys.len()
        invariant
            k <= ukeys@.len(),
            enumerates(ukeys@, ups@.dom()),
            upv == ups@.map_values(|v: Vec<u32>| v@),
            images@.current_memory == old(images)@.current_memory,
            images@.max_memory == old(images)@.max_memory,
            images@.images == Map::new(
                |x: ImageId| old(images)@.images.contains_key(x),
                |x: ImageId|
                    if upv.contains_key(x) && ukeys@.take(k as int).contains(x) {
                        ImageView { marker_ids: old(images)@.images[x].marker_ids + upv[x], ..old(images)@.images[x] }
                    } else {
                        old(images)@.images[x]
                    },
            ),
        decreases ukeys@.len() - k,
    {
        let key = ukeys[k];
        let ghost before = images@.images;
        assert(ups@.dom().contains(key));
        let add = ups.get(&key).unwrap();
        assert(add@ == upv[key]);
        assert(upv.contains_key(key));
        assert(before.contains_key(key) ==> before[key] == old(images)@.images[key]) by {
            assert(!ukeys@.take(k as int).contains(key)) by {
                if ukeys@.take(k as int).contains(key) {
                    let j = choose|j: int| 0 <= j < k && ukeys@.take(k as int)[j] == key;
                    assert(ukeys@[j] == ukeys@[k as int]);
                }
            }
        }
        proof {
            assert forall|x: ImageId| #[trigger] ukeys@.take(k as int + 1).contains(x) == (ukeys@.take(k as int).contains(x)
                || x == key) by {
                let a = ukeys@.take(k as int);
                assert(ukeys@.take(k as int + 1) =~= a.push(key));
                if a.push(key).contains(x) {
                    let j = choose|j: int| 0 <= j < a.push(key).len() && a.push(key)[j] == x;
                    if j < a.len() {
                        assert(a[j] == x);
                    }
                }
                if a.contains(x) {
                    let j = choose|j: int| 0 <= j < a.len() && a[j] == x;
                    assert(a.push(key)[j] == x);
                }
                if x == key {
                    assert(a.push(key)[a.len() as int] == x);
                }
            }
        }
        match images.take(key) {
            Some(mut image) => {
                let mut q: usize = 0;
                let ghost base = image.marker_ids@;
                let ghost iv = image@;
                while q < add.len()
                    invariant
                        q <= add@.len(),
                        image@ == (ImageView { marker_ids: base + add@.take(q as int), ..iv }),
                    decreases add@.len() - q,
                {
                    image.marker_ids.push(add[q]);
                    q = q + 1;
                    assert(image.marker_ids@ =~= base + add@.take(q as int));
                }
                assert(add@.take(add@.len() as int) =~= add@);
                images.put(key, image);
                proof {
                    lemma_remove_insert(before, key, images@.images[key]);
                }
            },
            None => {
                assert(images@.images =~= before);
            },
        }
        k = k + 1;
        assert(images@.images =~= Map::new(
            |x: ImageId| old(images)@.images.contains_key(x),
            |x: ImageId|
                if upv.contains_key(x) && ukeys@.take(k as int).contains(x) {
                    ImageView { marker_ids: old(images)@.images[x].marker_ids + upv[x], ..old(images)@.images[x] }
                } else {
                    old(images)@.images[x]
                },
        ));
    }
    assert(ukeys@.take(ukeys@.len() as int) =~= ukeys@);
    assert(images@.images =~= with_appended(old(images)@.images, upv));
}

/// A checksum without its `md5:` prefix.
fn strip_md5_exec(c: &String) -> (r: Vec<char>)
    ensures
        r@ == strip_md5(c@),
{
    let cs = chars_of(c.as_str());
    if crate::textscan::starts_with_lit(&cs, "md5:") {
        proof {
            reveal_strlit("md5:");
        }
        crate::textscan::slice_chars(&cs, 4, cs.len())
    } else {
        cs
    }
}

/// The first stored page with this checksum.
fn find_by_checksum(ids: &Vec<ImageId>, images: &crate::state::ImageStorage, want: &Vec<char>) -> (r: Option<ImageId>)
    ensures
        r == match_checksum(ids@, images@.images, want@, 0),
{
    let mut i: usize = 0;
    while i < ids.len()
        invariant
            i <= ids@.len(),
            match_checksum(ids@, images@.images, want@, i as int) == match_checksum(ids@, images@.images, want@, 0),
        decreases ids@.len() - i,
    {
        match images.get(ids[i]) {
            Some(img) => match &img.metadata.checksum {
                Some(ic) => {
                    let icc = chars_of(ic.as_str());
                    if crate::text::chars_equal(&icc, want) {
                        return Some(ids[i]);
                    }
                },
                None => {},
            },
            None => {},
        }
        i = i + 1;
    }
    None
}

/// The first stored page with this name.
fn find_by_name(ids: &Vec<ImageId>, images: &crate::state::ImageStorage, name: &String) -> (r: Option<ImageId>)
    ensures
        r == match_name(ids@, images@.images, name@, 0),
{
    let mut i: usize = 0;
    while i < ids.len()
        invariant
            i <= ids@.len(),
            match_name(ids@, images@.images, name@, i as int) == match_name(ids@, images@.images, name@, 0),
        decreases ids@.len() - i,
    {
        match images.get(ids[i]) {
            Some(img) => match &img.metadata.name {
                Some(n) => {
                    if str_equal(n.as_str(), name.as_str()) {
                        return Some(ids[i]);
                    }
                },
                None => {},
            },
            None => {},
        }
        i = i + 1;
    }
    None
}

/// The project page a file page goes to.
fn matched_image_exec(ids: &Vec<ImageId>, images: &crate::state::ImageStorage, entry: &ImageEntry) -> (r: Option<ImageId>)
    ensures
        r == matched_image(ids@, images@.images, (entry.filename@, opt_str_view(entry.checksum))),
{
    let by_cs = match &entry.checksum {
        Some(c) => {
            let want = strip_md5_exec(c);
            find_by_checksum(ids, images, &want)
        },
        None => None,
    };
    match by_cs {
        Some(id) => Some(id),
        None => find_by_name(ids, images, &entry.filename),
    }
}

/// The project pages the file pages go to, in file order.
pub open spec fn image_mapping(
    ids: Seq<ImageId>,
    images: Map<ImageId, ImageView>,
    entries: Seq<(Seq<char>, Option<Seq<char>>)>,
) -> Seq<Option<ImageId>> {
    Seq::new(entries.len(), |i: int| matched_image(ids, images, entries[i]))
}

/// The smaller of two lengths.
pub open spec fn min_len(a: nat, b: nat) -> int {
    if a < b {
        a as int
    } else {
        b as int
    }
}

/// What importing a project file into an existing project does to the
/// state (see `bf_imports`): new markers, appended to the pages' lists, and
/// fresh identifiers; the projects and the rest stay.
pub open spec fn bf_imported(o: AppState, f: AppState, project_id: ProjectId, bf_data: BfProjectData) -> bool {
    let mapping = image_mapping(
        o.projects@[project_id].image_ids,
        o.images@.images,
        image_entry_views(bf_data.images@),
    );
    let res = bf_imports(
        entry_lists(bf_data.markers@),
        mapping,
        bf_style_map(style_views(bf_data.styles@)),
        o.marker_ids.peek(),
        min_len(bf_data.markers@.len(), bf_data.images@.len()),
    );
    &&& f.markers@ == inserted_all(o.markers@, res.0)
    &&& f.images@.images == with_appended(o.images@.images, res.1)
    &&& f.images@.current_memory == o.images@.current_memory
    &&& f.images@.max_memory == o.images@.max_memory
    &&& f.marker_ids.peek() == nth_id(o.marker_ids.peek(), res.0.len() as int)
    &&& f.projects@ == o.projects@
    &&& f.thumbnails@ == o.thumbnails@
    &&& f.bunny_cache@ == o.bunny_cache@
    &&& f.project_ids == o.project_ids
    &&& f.image_ids == o.image_ids
}

/// Puts the markers of a project file onto the project's pages (each file
/// page goes to the page with its checksum, else its name): fresh
/// identifiers, numbered 1, 2, 3, ... per page, appended to the pages'
/// lists and the images' marker lists. An unknown project is an error and
/// nothing changes.
pub fn import_bf_data_direct(state: &mut AppState, project_id: ProjectId, bf_data: BfProjectData) -> (r: CoreResult<()>)
    ensures
        !old(state).projects@.contains_key(project_id) ==> {
            &&& (r matches Err(e) && is_project_not_found(e, project_id))
            &&& final(state).markers@ == old(state).markers@
            &&& final(state).images@ == old(state).images@
            &&& final(state).marker_ids == old(state).marker_ids
        },
        old(state).projects@.contains_key(project_id) ==> {
            let mapping = image_mapping(
                old(state).projects@[project_id].image_ids,
                old(state).images@.images,
                image_entry_views(bf_data.images@),
            );
            let res = bf_imports(
                entry_lists(bf_data.markers@),
                mapping,
                bf_style_map(style_views(bf_data.styles@)),
                old(state).marker_ids.peek(),
                min_len(bf_data.markers@.len(), bf_data.images@.len()),
            );
            &&& r == Ok::<(), CoreError>(())
            &&& final(state).markers@ == inserted_all(old(state).markers@, res.0)
            &&& final(state).images@.images == with_appended(old(state).images@.images, res.1)
            &&& final(state).images@.current_memory == old(state).images@.current_memory
            &&& final(state).images@.max_memory == old(state).images@.max_memory
            &&& final(state).marker_ids.peek() == nth_id(old(state).marker_ids.peek(), res.0.len() as int)
        },
        final(state).projects@ == old(state).projects@,
        final(state).thumbnails@ == old(state).thumbnails@,
        final(state).bunny_cache@ == old(state).bunny_cache@,
        final(state).project_ids == old(state).project_ids,
        final(state).image_ids == old(state).image_ids,
        old(state).projects@.contains_key(project_id) ==> bf_imported(*old(state), *final(state), project_id, bf_data),
{
    let image_ids = match state.projects.get(project_id) {
        Some(p) => p.image_ids.clone(),
        None => {
            return Err(project_not_found(project_id));
        },
    };
    let ghost entries = image_entry_views(bf_data.images@);
    let ghost full_mapping = image_mapping(image_ids@, state.images@.images, entries);
    let mut mapping: Vec<Option<ImageId>> = Vec::new();
    let mut i: usize = 0;
    while i < bf_data.images.len()
        invariant
            i <= bf_data.images@.len(),
            entries == image_entry_views(bf_data.images@),
            full_mapping == image_mapping(image_ids@, state.images@.images, entries),
            mapping@ == full_mapping.take(i as int),
        decreases bf_data.images@.len() - i,
    {
        let m = matched_image_exec(&image_ids, &state.images, &bf_data.images[i]);
        mapping.push(m);
        i = i + 1;
        assert(mapping@ =~= full_mapping.take(i as int));
    }
    assert(mapping@ =~= full_mapping);
    let ghost sv = style_views(bf_data.styles@);
    let mut smap: StrMap<MarkerStyle> = StrMap::new();
    let mut t: usize = 0;
    while t < bf_data.styles.len()
        invariant
            t <= bf_data.styles@.len(),
            sv == style_views(bf_data.styles@),
            smap.wf(),
            smap.map() == bf_style_map(sv.take(t as int)),
        decreases bf_data.styles@.len() - t,
    {
        assert(sv.take(t as int + 1).drop_last() =~= sv.take(t as int));
        let st = &bf_data.styles[t];
        smap.insert(st.id.clone(), MarkerStyle { overlay_text: st.overlay_text, horizontal: st.horizontal });
        t = t + 1;
    }
    assert(sv.take(bf_data.styles@.len() as int) =~= sv);
    let ghost smv = smap.map();
    let ghost lists = entry_lists(bf_data.markers@);
    let ghost start = state.marker_ids.peek();
    proof {
        lemma_nth_id_zero(start);
    }
    let n = if bf_data.markers.len() < mapping.len() {
        bf_data.markers.len()
    } else {
        mapping.len()
    };
    let mut ups: HashMap<u32, Vec<u32>> = HashMap::new();
    let ghost mut ms: Seq<MarkerView> = Seq::empty();
    assert(ups@.map_values(|v: Vec<u32>| v@) =~= Map::<ImageId, Seq<MarkerId>>::empty());
    let mut e: usize = 0;
    while e < n
        invariant
            e <= n,
            n == min_len(bf_data.markers@.len(), bf_data.images@.len()),
            mapping@ == full_mapping,
            mapping@.len() == bf_data.images@.len(),
            lists == entry_lists(bf_data.markers@),
            smap.wf(),
            smap.map() == smv,
            (ms, ups@.map_values(|v: Vec<u32>| v@)) == bf_imports(lists, full_mapping, smv, start, e as int),
            state.markers@ == inserted_all(old(state).markers@, ms),
            state.marker_ids.peek() == nth_id(start, ms.len() as int),
            state.images@ == old(state).images@,
            state.projects@ == old(state).projects@,
            state.thumbnails@ == old(state).thumbnails@,
            state.bunny_cache@ == old(state).bunny_cache@,
            state.project_ids == old(state).project_ids,
            state.image_ids == old(state).image_ids,
        decreases n - e,
    {
        match mapping[e] {
            Some(img) => {
                let page = &bf_data.markers[e];
                let ghost pv = entry_views(page@);
                assert(lists[e as int] == pv);
                let ghost first = ms.len() as int;
                let ghost newms = bf_page_markers(pv, img, smv, first, start);
                let mut ids: Vec<u32> = Vec::new();
                let mut j: usize = 0;
                while j < page.len()
                    invariant
                        j <= page@.len(),
                        pv == entry_views(page@),
                        newms == bf_page_markers(pv, img, smv, first, start),
                        first == ms.len(),
                        smap.wf(),
                        smap.map() == smv,
                        state.markers@ == inserted_all(old(state).markers@, ms + newms.take(j as int)),
                        state.marker_ids.peek() == nth_id(start, first + j),
                        ids@ == ids_of(newms.take(j as int)),
                        state.images@ == old(state).images@,
                        state.projects@ == old(state).projects@,
                        state.thumbnails@ == old(state).thumbnails@,
                        state.bunny_cache@ == old(state).bunny_cache@,
                        state.project_ids == old(state).project_ids,
                        state.image_ids == old(state).image_ids,
                    decreases page@.len() - j,
                {
                    proof {
                        lemma_nth_id_step(start, first + j);
                        assert((ms + newms.take(j as int + 1)).drop_last() =~= ms + newms.take(j as int));
                        assert(ids_of(newms.take(j as int + 1)).drop_last() =~= ids_of(newms.take(j as int)));
                    }
                    let id = state.marker_ids.next();
                    let (style_id, text) = match &page[j] {
                        MarkerEntry::Point { style, text, .. } => (style, text),
                        MarkerEntry::Rectangle { style, text, .. } => (style, text),
                    };
                    let style = match smap.get(style_id.as_str()) {
                        Some(s) => *s,
                        None => MarkerStyle { overlay_text: false, horizontal: false },
                    };
                    let geometry = match &page[j] {
                        MarkerEntry::Point { position, .. } => MarkerGeometry::Point { x: position.0, y: position.1 },
                        MarkerEntry::Rectangle { position, size, .. } => MarkerGeometry::Rectangle {
                            x: position.0,
                            y: position.1,
                            width: size.0,
                            height: size.1,
                        },
                    };
                    let marker = Marker {
                        id,
                        image_id: img,
                        geometry,
                        translation: text.clone(),
                        style,
                        image_index: (j + 1) as u32,
                    };
                    assert(pv[j as int] == page@[j as int]@);
                    assert(marker@ == newms[j as int]);
                    state.markers.insert_with_image(marker);
                    ids.push(id);
                    j = j + 1;
                    assert(ids@ =~= ids_of(newms.take(j as int)));
                }
                assert(newms.take(page@.len() as int) =~= newms);
                if ids.len() > 0 {
                    ups.insert(img, ids);
                }
                proof {
                    ms = ms + newms;
                }
                assert(ups@.map_values(|v: Vec<u32>| v@) =~= bf_imports(lists, full_mapping, smv, start, e + 1).1);
            },
            None => {},
        }
        e = e + 1;
    }
    append_marker_ids(&mut state.images, &ups);
    Ok(())
}

/// The RFC 3339 text (UTC, `+00:00`, with the fraction of a second when
/// it is not zero) of the time `ms` milliseconds after the Unix epoch, or
/// none when chrono cannot represent that time.
pub uninterp spec fn rfc3339_of_millis(ms: i64) -> Option<Seq<char>>;

/// chrono's `DateTime::<Utc>::from_timestamp_millis`, then `to_rfc3339`.
/// Claimed: the result is `rfc3339_of_millis` of the argument.
#[verifier::external_body]
fn rfc3339_text(ms: i64) -> (r: Option<String>)
    ensures
        opt_str_view(r) == rfc3339_of_millis(ms),
{
    match chrono::DateTime::<chrono::Utc>::from_timestamp_millis(ms) {
        Some(d) => Some(d.to_rfc3339()),
        None => None,
    }
}

/// The current time in RFC 3339 form, to the millisecond, by the system
/// clock (a clock set before the Unix epoch reads as the epoch); empty when
/// the clock reads a time that chrono cannot represent. Which time it is
/// depends on the clock.
pub fn now_rfc3339() -> (r: String)
    ensures
        exists|ms: i64|
            0 <= ms && (#[trigger] rfc3339_of_millis(ms) == Some(r@) || (rfc3339_of_millis(ms) is None && r@.len()
                == 0)),
{
    let now = get_timestamp_millis();
    let ms: i64 = if now <= 0x7fff_ffff_ffff_ffffu64 {
        now as i64
    } else {
        0x7fff_ffff_ffff_ffffi64
    };
    match rfc3339_text(ms) {
        Some(t) => {
            assert(rfc3339_of_millis(ms) == Some(t@));
            t
        },
        None => {
            let e = String::new();
            proof {
                reveal_strlit("");
            }
            assert(rfc3339_of_millis(ms) is None && e@.len() == 0);
            e
        },
    }
}

/// The marker identifiers on the lists of a project's stored images, image
/// after image.
pub open spec fn image_marker_ids(ids: Seq<ImageId>, images: Map<ImageId, ImageView>) -> Seq<MarkerId>
    decreases ids.len(),
{
    if ids.len() == 0 {
        Seq::empty()
    } else {
        image_marker_ids(ids.drop_last(), images) + if images.contains_key(ids.last()) {
            images[ids.last()].marker_ids
        } else {
            Seq::empty()
        }
    }
}

/// The layouts written: one per layout met, named 0, 1, 2, ...; a single
/// plain layout named 0 when none was met.
pub open spec fn bf_style_entries(keys: Seq<(bool, bool)>) -> Seq<(Seq<char>, bool, bool)> {
    if keys.len() == 0 {
        seq![("0"@, false, false)]
    } else {
        Seq::new(keys.len(), |i: int| (decimal(i as nat), keys[i].0, keys[i].1))
    }
}

/// Three decimal digits at least.
pub open spec fn three_digits(n: nat) -> Seq<char> {
    if n < 10 {
        "00"@ + decimal(n)
    } else if n < 100 {
        "0"@ + decimal(n)
    } else {
        decimal(n)
    }
}

/// The page entries written for a project's stored pages: the page's name
/// (or `page_NNN.jpg` after its place among all pages) and its checksum
/// marked `md5:`.
pub open spec fn bf_image_entries(ids: Seq<ImageId>, images: Map<ImageId, ImageView>) -> Seq<
    (Seq<char>, Option<Seq<char>>),
>
    decreases ids.len(),
{
    if ids.len() == 0 {
        Seq::empty()
    } else {
        let prev = bf_image_entries(ids.drop_last(), images);
        let id = ids.last();
        if images.contains_key(id) {
            let img = images[id];
            prev.push(
                (
                    match img.metadata.name {
                        Some(n) => n,
                        None => "page_"@ + three_digits(ids.len()) + ".jpg"@,
                    },
                    match img.metadata.checksum {
                        Some(c) => Some("md5:"@ + c),
                        None => None,
                    },
                ),
            )
        } else {
            prev
        }
    }
}

/// The entry a marker is written as.
pub open spec fn bf_entry(m: MarkerView, keys: Seq<(bool, bool)>) -> MarkerEntryView {
    let style = decimal(first_index(keys, crate::labelplus_export::style_key(m)) as nat);
    match m.geometry {
        MarkerGeometry::Point { x, y } => MarkerEntryView::Point { position: (x, y), style, text: m.translation },
        MarkerGeometry::Rectangle { x, y, width, height } => MarkerEntryView::Rectangle {
            position: (x, y),
            size: (width, height),
            style,
            text: m.translation,
        },
    }
}

/// The entries of the stored markers named by a list, in list order.
pub open spec fn bf_page_entries(
    list: Seq<MarkerId>,
    ms: Map<MarkerId, MarkerView>,
    keys: Seq<(bool, bool)>,
) -> Seq<MarkerEntryView>
    decreases list.len(),
{
    if list.len() == 0 {
        Seq::empty()
    } else {
        let prev = bf_page_entries(list.drop_last(), ms, keys);
        if ms.contains_key(list.last()) {
            prev.push(bf_entry(ms[list.last()], keys))
        } else {
            prev
        }
    }
}

/// The marker lists written: one per page of the project (empty for a page
/// that is not stored).
pub open spec fn bf_marker_lists(
    ids: Seq<ImageId>,
    images: Map<ImageId, ImageView>,
    ms: Map<MarkerId, MarkerView>,
    keys: Seq<(bool, bool)>,
) -> Seq<Seq<MarkerEntryView>> {
    Seq::new(
        ids.len(),
        |i: int|
            if images.contains_key(ids[i]) {
                bf_page_entries(images[ids[i]].marker_ids, ms, keys)
            } else {
                Seq::empty()
            },
    )
}

/// Whether `d` is the content of a project file for project `p`, given
/// the stores.
pub open spec fn describes_project(
    d: BfProjectData,
    p: ProjectView,
    images: Map<ImageId, ImageView>,
    ms: Map<MarkerId, MarkerView>,
) -> bool {
    let keys = crate::labelplus_export::styles_seen(image_marker_ids(p.image_ids, images), ms);
    &&& d.metadata.format_version@ == "1.0"@
    &&& d.metadata.project_name@ == p.name
    &&& d.metadata.source_language == Some(p.source_language)
    &&& d.metadata.target_language == Some(p.target_language)
    &&& style_views(d.styles@) == bf_style_entries(keys)
    &&& image_entry_views(d.images@) == bf_image_entries(p.image_ids, images)
    &&& entry_lists(d.markers@) == bf_marker_lists(p.image_ids, images, ms, keys)
}

/// The position of a layout among those met (their number when absent).
fn style_position(keys: &Vec<(bool, bool)>, key: (bool, bool)) -> (r: usize)
    ensures
        r as int == first_index(keys@, key),
{
    let mut i: usize = 0;
    assert(keys@.subrange(0, keys@.len() as int) =~= keys@);
    while i < keys.len()
        invariant
            i <= keys@.len(),
            first_index(keys@, key) == i + first_index(keys@.subrange(i as int, keys@.len() as int), key),
        decreases keys@.len() - i,
    {
        assert(keys@.subrange(i as int, keys@.len() as int)[0] == keys@[i as int]);
        if keys[i].0 == key.0 && keys[i].1 == key.1 {
            return i;
        }
        assert(keys@.subrange(i as int, keys@.len() as int).drop_first() =~= keys@.subrange(
            i + 1,
            keys@.len() as int,
        ));
        i = i + 1;
    }
    assert(keys@.subrange(i as int, keys@.len() as int) =~= Seq::<(bool, bool)>::empty());
    i
}

/// The decimal text of a number.
fn decimal_string(n: u64) -> (r: String)
    ensures
        r@ == decimal(n as nat),
{
    let mut m: Vec<char> = Vec::new();
    push_decimal(&mut m, n);
    assert(m@ =~= decimal(n as nat));
    string_from_chars(&m)
}

/// Collects the content of a project file for a project: the head with the
/// time of writing, the layouts its markers use, its stored pages and the
/// markers on each page's list (see `describes_project`).
pub fn save_project(state: &AppState, project_id: ProjectId) -> (r: CoreResult<BfProjectData>)
    ensures
        !state.projects@.contains_key(project_id) ==> (r matches Err(e) && is_project_not_found(e, project_id)),
        state.projects@.contains_key(project_id) ==> (r matches Ok(d) && describes_project(
            d,
            state.projects@[project_id],
            state.images@.images,
            state.markers@.markers,
        )),
{
    let (name, image_ids, source_language, target_language) = match state.projects.get(project_id) {
        Some(p) => (p.name.clone(), p.image_ids.clone(), p.source_language, p.target_language),
        None => {
            return Err(project_not_found(project_id));
        },
    };
    let ghost images = state.images@.images;
    let ghost ms = state.markers@.markers;
    let export_date = now_rfc3339();
    let metadata = ProjectMetadata {
        format_version: string_of("1.0"),
        export_date,
        project_name: name,
        source_language: Some(source_language),
        target_language: Some(target_language),
    };
    // The layouts met.
    let mut keys: Vec<(bool, bool)> = Vec::new();
    let mut i: usize = 0;
    while i < image_ids.len()
        invariant
            i <= image_ids@.len(),
            images == state.images@.images,
            ms == state.markers@.markers,
            keys@ == crate::labelplus_export::styles_seen(image_marker_ids(image_ids@.take(i as int), images), ms),
        decreases image_ids@.len() - i,
    {
        assert(image_ids@.take(i as int + 1).drop_last() =~= image_ids@.take(i as int));
        let ghost before = image_marker_ids(image_ids@.take(i as int), images);
        match state.images.get(image_ids[i]) {
            Some(img) => {
                let list = &img.marker_ids;
                let mut j: usize = 0;
                while j < list.len()
                    invariant
                        j <= list@.len(),
                        ms == state.markers@.markers,
                        keys@ == crate::labelplus_export::styles_seen(before + list@.take(j as int), ms),
                    decreases list@.len() - j,
                {
                    assert((before + list@.take(j as int + 1)).drop_last() =~= before + list@.take(j as int));
                    match state.markers.get(list[j]) {
                        Some(m) => {
                            let key = (m.style.overlay_text, m.style.horizontal);
                            let pos = style_position(&keys, key);
                            proof {
                                lemma_first_index_bound(keys@, key);
                            }
                            if pos == keys.len() {
                                keys.push(key);
                            }
                        },
                        None => {},
                    }
                    j = j + 1;
                }
                assert(list@.take(list@.len() as int) =~= list@);
            },
            None => {
                assert(before + Seq::<MarkerId>::empty() =~= before);
            },
        }
        i = i + 1;
    }
    assert(image_ids@.take(image_ids@.len() as int) =~= image_ids@);
    // The layout entries.
    let mut styles: Vec<StyleEntry> = Vec::new();
    if keys.len() == 0 {
        styles.push(StyleEntry { id: string_of("0"), overlay_text: false, horizontal: false });
        assert(style_views(styles@) =~= bf_style_entries(keys@));
    } else {
        let mut k: usize = 0;
        while k < keys.len()
            invariant
                k <= keys@.len(),
                keys@.len() > 0,
                style_views(styles@) == bf_style_entries(keys@).take(k as int),
            decreases keys@.len() - k,
        {
            let ghost prev = style_views(styles@);
            styles.push(StyleEntry { id: decimal_string(k as u64), overlay_text: keys[k].0, horizontal: keys[k].1 });
            assert(style_views(styles@) =~= prev.push((decimal(k as nat), keys@[k as int].0, keys@[k as int].1)));
            assert(bf_style_entries(keys@).take(k as int + 1) =~= bf_style_entries(keys@).take(k as int).push(
                bf_style_entries(keys@)[k as int],
            ));
            k = k + 1;
            assert(style_views(styles@) =~= bf_style_entries(keys@).take(k as int));
        }
        assert(bf_style_entries(keys@).take(keys@.len() as int) =~= bf_style_entries(keys@));
    }
    // The page entries.
    let mut image_entries: Vec<ImageEntry> = Vec::new();
    let mut i: usize = 0;
    while i < image_ids.len()
        invariant
            i <= image_ids@.len(),
            images == state.images@.images,
            image_entry_views(image_entries@) == bf_image_entries(image_ids@.take(i as int), images),
        decreases image_ids@.len() - i,
    {
        assert(image_ids@.take(i as int + 1).drop_last() =~= image_ids@.take(i as int));
        match state.images.get(image_ids[i]) {
            Some(img) => {
                let filename = match &img.metadata.name {
                    Some(n) => n.clone(),
                    None => {
                        let mut m: Vec<char> = Vec::new();
                        push_str(&mut m, "page_");
                        let num = (i + 1) as u64;
                        if num < 10 {
                            push_str(&mut m, "00");
                        } else if num < 100 {
                            push_str(&mut m, "0");
                        }
                        push_decimal(&mut m, num);
                        push_str(&mut m, ".jpg");
                        assert(m@ =~= "page_"@ + three_digits((i + 1) as nat) + ".jpg"@);
                        string_from_chars(&m)
                    },
                };
                let checksum = match &img.metadata.checksum {
                    Some(c) => {
                        let mut m: Vec<char> = Vec::new();
                        push_str(&mut m, "md5:");
                        push_str(&mut m, c.as_str());
                        Some(string_from_chars(&m))
                    },
                    None => None,
                };
                let ghost prev = image_entry_views(image_entries@);
                image_entries.push(ImageEntry { filename, checksum });
                assert(image_entry_views(image_entries@) =~= prev.push(image_entry_views(image_entries@).last()));
            },
            None => {},
        }
        i = i + 1;
    }
    assert(image_ids@.take(image_ids@.len() as int) =~= image_ids@);
    // The marker lists.
    let mut lists: Vec<Vec<MarkerEntry>> = Vec::new();
    let mut i: usize = 0;
    while i < image_ids.len()
        invariant
            i <= image_ids@.len(),
            images == state.images@.images,
            ms == state.markers@.markers,
            entry_lists(lists@) == bf_marker_lists(image_ids@, images, ms, keys@).take(i as int),
        decreases image_ids@.len() - i,
    {
        let mut entries: Vec<MarkerEntry> = Vec::new();
        match state.images.get(image_ids[i]) {
            Some(img) => {
                let list = &img.marker_ids;
                let mut j: usize = 0;
                while j < list.len()
                    invariant
                        j <= list@.len(),
                        ms == state.markers@.markers,
                        entry_views(entries@) == bf_page_entries(list@.take(j as int), ms, keys@),
                    decreases list@.len() - j,
                {
                    assert(list@.take(j as int + 1).drop_last() =~= list@.take(j as int));
                    match state.markers.get(list[j]) {
                        Some(m) => {
                            let pos = style_position(&keys, (m.style.overlay_text, m.style.horizontal));
                            let style = decimal_string(pos as u64);
                            let e = match m.geometry {
                                MarkerGeometry::Point { x, y } => MarkerEntry::Point {
                                    position: (x, y),
                                    style,
                                    text: m.translation.clone(),
                                },
                                MarkerGeometry::Rectangle { x, y, width, height } => MarkerEntry::Rectangle {
                                    position: (x, y),
                                    size: (width, height),
                                    style,
                                    text: m.translation.clone(),
                                },
                            };
                            let ghost prev = entry_views(entries@);
                            entries.push(e);
                            assert(entry_views(entries@) =~= prev.push(bf_entry(ms[list@[j as int]], keys@)));
                        },
                        None => {},
                    }
                    j = j + 1;
                }
                assert(list@.take(list@.len() as int) =~= list@);
            },
            None => {
                assert(entry_views(entries@) =~= Seq::<MarkerEntryView>::empty());
            },
        }
        let ghost prev = entry_lists(lists@);
        lists.push(entries);
        assert(entry_lists(lists@) =~= prev.push(entry_views(entries@)));
        i = i + 1;
        assert(entry_lists(lists@) =~= bf_marker_lists(image_ids@, images, ms, keys@).take(i as int));
    }
    assert(bf_marker_lists(image_ids@, images, ms, keys@).take(image_ids@.len() as int) =~= bf_marker_lists(
        image_ids@,
        images,
        ms,
        keys@,
    ));
    proof {
        reveal_strlit("1.0");
    }
    Ok(BfProjectData { metadata, styles, images: image_entries, markers: lists })
}

/// Lemma: a first position lies within the sequence or at its end.
pub proof fn lemma_first_index_bound(s: Seq<(bool, bool)>, x: (bool, bool))
    ensures
        0 <= first_index(s, x) <= s.len(),
        first_index(s, x) == s.len() <==> !s.contains(x),
        first_index(s, x) < s.len() ==> s[first_index(s, x)] == x,
    decreases s.len(),
{
    if s.len() > 0 && s[0] != x {
        lemma_first_index_bound(s.drop_first(), x);
        if s.contains(x) {
            let j = choose|j: int| 0 <= j < s.len() && s[j] == x;
            assert(s.drop_first()[j - 1] == x);
        }
        if s.drop_first().contains(x) {
            let j = choose|j: int| 0 <= j < s.drop_first().len() && s.drop_first()[j] == x;
            assert(s[j + 1] == x);
        }
    } else if s.len() > 0 {
        assert(s[0] == x);
    }
}

/// Collects the content of a project file (see `save_project`) and records
/// the path as the project's file.
pub fn save_project_to_path(state: &mut AppState, project_id: ProjectId, path: &str) -> (r: CoreResult<BfProjectData>)
    ensures
        !old(state).projects@.contains_key(project_id) ==> (r matches Err(e) && is_project_not_found(e, project_id)
            && final(state).projects@ == old(state).projects@),
        old(state).projects@.contains_key(project_id) ==> (r matches Ok(d) && describes_project(
            d,
            old(state).projects@[project_id],
            old(state).images@.images,
            old(state).markers@.markers,
        ) && final(state).projects@ == old(state).projects@.insert(
            project_id,
            ProjectView { file_path: Some(path@), ..old(state).projects@[project_id] },
        )),
        final(state).images@ == old(state).images@,
        final(state).markers@ == old(state).markers@,
{
    let data = save_project(state, project_id)?;
    update_project_file_path_storage(&mut state.projects, project_id, Some(string_of(path)))?;
    Ok(data)
}

} // verus!
