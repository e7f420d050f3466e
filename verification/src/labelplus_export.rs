use vstd::prelude::*;
use std::collections::HashMap;
use crate::error::{CoreError, CoreResult};
use crate::ids::{ImageId, MarkerId, ProjectId};
use crate::image::ImageView;
use crate::marker::{Marker, MarkerView};
use crate::language::{Language, language_name};
use crate::state::{AppState, page_list, present_markers};
use crate::strmap::StrMap;
use crate::text::{decimal, push_decimal, push_str, string_from_chars};
use crate::textscan::{lines_from, split_lines};
use crate::labelplus::{MarkerTypeStyleConfig, cfg, default_type_mappings, get_default_style_mapping, mapping_views};
use crate::labelplus_import::{project_not_found, is_project_not_found};
use crate::sorting::{stably_sorted, stable_rank, sorts_before, marker_index, sort_markers_by_index, by_marker_index, by_view_index};

verus! {

broadcast use vstd::std_specs::hash::group_hash_axioms;

/// The coordinates a marker is written with in a LabelPlus file, as text
/// (the caller formats them: fractions of the page, a rectangle by the
/// middle of its top edge).
#[derive(Debug)]
pub struct MarkerCoordText {
    pub x: String,
    pub y: String,
}

impl View for MarkerCoordText {
    type V = (Seq<char>, Seq<char>);

    open spec fn view(&self) -> (Seq<char>, Seq<char>) {
        (self.x@, self.y@)
    }
}

/// The identifiers on the marker lists of some pages, page after page.
pub open spec fn flat_ids(image_ids: Seq<ImageId>, by_image: Map<ImageId, Seq<MarkerId>>) -> Seq<MarkerId>
    decreases image_ids.len(),
{
    if image_ids.len() == 0 {
        Seq::empty()
    } else {
        flat_ids(image_ids.drop_last(), by_image) + page_list(by_image, image_ids.last())
    }
}

/// A marker's layout as a pair.
pub open spec fn style_key(m: MarkerView) -> (bool, bool) {
    (m.style.overlay_text, m.style.horizontal)
}

/// The layouts of the stored markers named by `ids`, each once, in the
/// order first met.
pub open spec fn styles_seen(ids: Seq<MarkerId>, ms: Map<MarkerId, MarkerView>) -> Seq<(bool, bool)>
    decreases ids.len(),
{
    if ids.len() == 0 {
        Seq::empty()
    } else {
        let prev = styles_seen(ids.drop_last(), ms);
        let k = ids.last();
        if ms.contains_key(k) && !prev.contains(style_key(ms[k])) {
            prev.push(style_key(ms[k]))
        } else {
            prev
        }
    }
}

/// The name of the first built-in mapping from position `i` on with this
/// layout.
pub open spec fn name_for_style_from(
    ms: Seq<(Seq<char>, MarkerTypeStyleConfig)>,
    key: (bool, bool),
    i: int,
) -> Option<Seq<char>>
    decreases ms.len() - i,
{
    if i < 0 || i >= ms.len() {
        None
    } else if ms[i].1 == cfg(key.0, key.1) {
        Some(ms[i].0)
    } else {
        name_for_style_from(ms, key, i + 1)
    }
}

/// The type name written for a layout: the built-in name, or `fallback`.
pub open spec fn style_name(key: (bool, bool)) -> Seq<char> {
    match name_for_style_from(default_type_mappings(), key, 0) {
        Some(n) => n,
        None => "fallback"@,
    }
}

/// The type names written: one per layout met (at most nine, the ninth
/// called `others` when there are more), or `fallback` alone when no
/// marker was met.
pub open spec fn type_names_for(styles: Seq<(bool, bool)>) -> Seq<Seq<char>> {
    if styles.len() == 0 {
        seq!["fallback"@]
    } else {
        Seq::new(
            if styles.len() < 9 {
                styles.len()
            } else {
                9
            },
            |i: int|
                if i >= 8 && styles.len() > 9 {
                    "others"@
                } else {
                    style_name(styles[i])
                },
        )
    }
}

/// The first position of `x` in `s` (or `s.len()`).
pub open spec fn first_index(s: Seq<(bool, bool)>, x: (bool, bool)) -> int
    decreases s.len(),
{
    if s.len() == 0 {
        0
    } else if s[0] == x {
        0
    } else {
        1 + first_index(s.drop_first(), x)
    }
}

/// The type number a layout is written with: its place among the layouts
/// met (numbers above nine become nine), or 1.
pub open spec fn type_of_style(styles: Seq<(bool, bool)>, key: (bool, bool)) -> u32 {
    if styles.contains(key) {
        let i = first_index(styles, key);
        if i < 9 {
            (i + 1) as u32
        } else {
            9
        }
    } else {
        1
    }
}

/// Two decimal digits at least.
pub open spec fn two_digits(n: nat) -> Seq<char> {
    if n < 10 {
        "0"@ + decimal(n)
    } else {
        decimal(n)
    }
}

/// The name a page is written under: its own, or `NN.jpeg` after the number
/// of pages written before it.
pub open spec fn export_name(img: ImageView, count: nat) -> Seq<char> {
    match img.metadata.name {
        Some(n) => n,
        None => two_digits(count) + ".jpeg"@,
    }
}

/// The stored pages of a project, in order, with the names they are
/// written under.
pub open spec fn export_pages(image_ids: Seq<ImageId>, images: Map<ImageId, ImageView>) -> Seq<(Seq<char>, ImageId)>
    decreases image_ids.len(),
{
    if image_ids.len() == 0 {
        Seq::empty()
    } else {
        let prev = export_pages(image_ids.drop_last(), images);
        let id = image_ids.last();
        if images.contains_key(id) {
            prev.push((export_name(images[id], prev.len()), id))
        } else {
            prev
        }
    }
}

/// A marker as written: coordinate texts, type number, translation.
pub type ExportMarker = (Seq<char>, Seq<char>, u32, Seq<char>);

/// The markers of a page as written, given the page's markers in written
/// order.
pub open spec fn export_markers(
    sorted: Seq<MarkerView>,
    styles: Seq<(bool, bool)>,
    coords: Map<MarkerId, (Seq<char>, Seq<char>)>,
) -> Seq<ExportMarker> {
    sorted.map_values(
        |m: MarkerView|
            (coords[m.id].0, coords[m.id].1, type_of_style(styles, style_key(m)), m.translation),
    )
}

/// The markers written per page name: pages with markers only, a later
/// page of the same name replacing an earlier one.
pub open spec fn export_map(pages: Seq<(Seq<char>, ImageId)>, lists: Seq<Seq<ExportMarker>>) -> Map<
    Seq<char>,
    Seq<ExportMarker>,
>
    decreases pages.len(),
{
    if pages.len() == 0 {
        Map::empty()
    } else {
        let prev = export_map(pages.drop_last(), lists);
        let i = pages.len() - 1;
        if lists[i].len() > 0 {
            prev.insert(pages[i].0, lists[i])
        } else {
            prev
        }
    }
}

/// Lines each followed by `"\r\n"`.
pub open spec fn crlf_lines(ls: Seq<Seq<char>>) -> Seq<char>
    decreases ls.len(),
{
    if ls.len() == 0 {
        Seq::empty()
    } else {
        crlf_lines(ls.drop_last()) + ls.last() + "\r\n"@
    }
}

/// A marker's block: its header with its number, coordinates and type,
/// then its translation line by line.
pub open spec fn marker_block(k: int, m: ExportMarker) -> Seq<char> {
    "----------------["@ + decimal((k + 1) as nat) + "]----------------["@ + m.0 + ","@ + m.1 + ","@ + decimal(
        m.2 as nat,
    ) + "]\r\n"@ + crlf_lines(lines_from(m.3, 0))
}

/// The blocks of some markers, numbered from 1.
pub open spec fn marker_blocks(ms: Seq<ExportMarker>) -> Seq<char>
    decreases ms.len(),
{
    if ms.len() == 0 {
        Seq::empty()
    } else {
        marker_blocks(ms.drop_last()) + marker_block(ms.len() - 1, ms.last())
    }
}

/// A page's section: its header, then the blocks of the markers written
/// under its name.
pub open spec fn page_section(name: Seq<char>, m: Map<Seq<char>, Seq<ExportMarker>>) -> Seq<char> {
    ">>>>>>>>["@ + name + "]<<<<<<<<\r\n"@ + if m.contains_key(name) {
        marker_blocks(m[name])
    } else {
        Seq::empty()
    }
}

/// The sections of some pages.
pub open spec fn page_sections(pages: Seq<(Seq<char>, ImageId)>, m: Map<Seq<char>, Seq<ExportMarker>>) -> Seq<char>
    decreases pages.len(),
{
    if pages.len() == 0 {
        Seq::empty()
    } else {
        page_sections(pages.drop_last(), m) + page_section(pages.last().0, m)
    }
}

/// The file head: `1,0`, `-`, the type names, `-`, and a comment naming the
/// languages.
pub open spec fn export_head(names: Seq<Seq<char>>, source: Language, target: Language) -> Seq<char> {
    "1,0\r\n-\r\n"@ + crlf_lines(names) + "-\r\n"@ + "Exported from Bubblefish | Source: "@ + language_name(source)
        + " | Target: "@ + language_name(target) + "\r\n"@
}

/// Whether entry `i` comes before entry `j` when markers are sorted stably
/// by index.
pub open spec fn index_before(s: Seq<MarkerView>, i: int, j: int) -> bool {
    0 <= i < s.len() && 0 <= j < s.len() && (s[i].image_index < s[j].image_index || (s[i].image_index
        == s[j].image_index && i < j))
}

/// Where marker `j` lands when markers are sorted stably by index.
pub open spec fn index_rank(s: Seq<MarkerView>, j: int) -> nat {
    Seq::new(s.len(), |i: int| i).filter(|i: int| index_before(s, i, j)).len()
}

/// `out` is `inp` sorted by index, markers with equal indices keeping
/// their order.
pub open spec fn sorted_by_index(inp: Seq<MarkerView>, out: Seq<MarkerView>) -> bool {
    &&& out.len() == inp.len()
    &&& forall|j: int| 0 <= j < inp.len() ==> #[trigger] index_rank(inp, j) < inp.len()
    &&& forall|j: int| 0 <= j < inp.len() ==> out[#[trigger] index_rank(inp, j) as int] == inp[j]
}

/// Whether `lists` holds, for each written page, its stored markers in
/// written form, in the order `sorteds` gives (which sorts them stably by
/// index).
pub open spec fn export_lists_ok(
    lists: Seq<Seq<ExportMarker>>,
    sorteds: Seq<Seq<MarkerView>>,
    pages: Seq<(Seq<char>, ImageId)>,
    by_image: Map<ImageId, Seq<MarkerId>>,
    ms: Map<MarkerId, MarkerView>,
    styles: Seq<(bool, bool)>,
    coords: Map<MarkerId, (Seq<char>, Seq<char>)>,
) -> bool {
    &&& lists.len() == pages.len()
    &&& sorteds.len() == pages.len()
    &&& forall|i: int|
        0 <= i < pages.len() ==> sorted_by_index(
            present_markers(page_list(by_image, pages[i].1), ms),
            #[trigger] sorteds[i],
        )
    &&& forall|i: int| 0 <= i < pages.len() ==> #[trigger] lists[i] == export_markers(sorteds[i], styles, coords)
}

/// A marker in written form.
#[derive(Debug)]
pub struct LabelplusExportMarker {
    pub x: String,
    pub y: String,
    pub type_id: u32,
    pub translation: String,
}

impl View for LabelplusExportMarker {
    type V = ExportMarker;

    open spec fn view(&self) -> ExportMarker {
        (self.x@, self.y@, self.type_id, self.translation@)
    }
}

/// The markers written for one page.
#[derive(Debug)]
pub struct LabelplusExportList {
    pub items: Vec<LabelplusExportMarker>,
}

impl View for LabelplusExportList {
    type V = Seq<ExportMarker>;

    open spec fn view(&self) -> Seq<ExportMarker> {
        self.items@.map_values(|m: LabelplusExportMarker| m@)
    }
}

/// Lemma: a map of written pages depends only on the lists of those pages.
pub proof fn lemma_export_map_prefix(
    pages: Seq<(Seq<char>, ImageId)>,
    lists: Seq<Seq<ExportMarker>>,
    more: Seq<ExportMarker>,
)
    requires
        pages.len() <= lists.len(),
    ensures
        export_map(pages, lists.push(more)) == export_map(pages, lists),
    decreases pages.len(),
{
    if pages.len() > 0 {
        lemma_export_map_prefix(pages.drop_last(), lists, more);
        assert(lists.push(more)[pages.len() - 1] == lists[pages.len() - 1]);
    }
}

/// Lemma: a stable sort of markers is a stable sort of their views.
pub proof fn lemma_sorted_views(inp: Seq<Marker>, out: Seq<Marker>)
    requires
        stably_sorted(inp, out, by_marker_index()),
    ensures
        sorted_by_index(inp.map_values(|m: Marker| m@), out.map_values(|m: Marker| m@)),
{
    let vi = inp.map_values(|m: Marker| m@);
    let vo = out.map_values(|m: Marker| m@);
    let k1 = by_marker_index();
    assert forall|j: int| 0 <= j < vi.len() implies vo[#[trigger] index_rank(vi, j) as int] == vi[j] by {
        let f1 = |i: int| sorts_before(inp, k1, i, j);
        let f2 = |i: int| index_before(vi, i, j);
        assert forall|i: int| #[trigger] f1(i) == f2(i) by {
            if 0 <= i < vi.len() {
                assert(vi[i] == inp[i]@);
                assert(vi[j] == inp[j]@);
            }
        }
        assert(f1 =~= f2);
        assert(index_rank(vi, j) == stable_rank(inp, k1, j));
        assert(out[stable_rank(inp, k1, j) as int] == inp[j]);
        assert(stable_rank(inp, k1, j) < inp.len());
    }
    assert forall|j: int| 0 <= j < vi.len() implies #[trigger] index_rank(vi, j) < vi.len() by {
        let f1 = |i: int| sorts_before(inp, k1, i, j);
        let f2 = |i: int| index_before(vi, i, j);
        assert forall|i: int| #[trigger] f1(i) == f2(i) by {
            if 0 <= i < vi.len() {
                assert(vi[i] == inp[i]@);
                assert(vi[j] == inp[j]@);
            }
        }
        assert(f1 =~= f2);
        assert(stable_rank(inp, k1, j) < inp.len());
    }
    assert(sorted_by_index(vi, vo));
}

/// The type number of a layout.
fn type_of_style_exec(styles: &Vec<(bool, bool)>, key: (bool, bool)) -> (r: u32)
    ensures
        r == type_of_style(styles@, key),
{
    let mut i: usize = 0;
    assert(styles@.subrange(0, styles@.len() as int) =~= styles@);
    while i < styles.len()
        invariant
            i <= styles@.len(),
            forall|j: int| 0 <= j < i ==> styles@[j] != key,
            first_index(styles@, key) == i + first_index(styles@.subrange(i as int, styles@.len() as int), key),
        decreases styles@.len() - i,
    {
        assert(styles@.subrange(i as int, styles@.len() as int)[0] == styles@[i as int]);
        if styles[i].0 == key.0 && styles[i].1 == key.1 {
            assert(styles@.contains(key));
            return if i < 9 {
                (i + 1) as u32
            } else {
                9
            };
        }
        assert(styles@.subrange(i as int, styles@.len() as int).drop_first() =~= styles@.subrange(
            i + 1,
            styles@.len() as int,
        ));
        i = i + 1;
    }
    assert(!styles@.contains(key));
    1
}

/// The type name written for a layout.
fn style_name_exec(mappings: &Vec<crate::labelplus::MarkerTypeMapping>, key: (bool, bool)) -> (r: String)
    requires
        mapping_views(mappings@) == default_type_mappings(),
    ensures
        r@ == style_name(key),
{
    let mut i: usize = 0;
    while i < mappings.len()
        invariant
            i <= mappings@.len(),
            mapping_views(mappings@) == default_type_mappings(),
            name_for_style_from(default_type_mappings(), key, i as int) == name_for_style_from(
                default_type_mappings(),
                key,
                0,
            ),
        decreases mappings@.len() - i,
    {
        assert(mapping_views(mappings@)[i as int] == (mappings@[i as int].name@, mappings@[i as int].style));
        if mappings[i].style.overlay_text == key.0 && mappings[i].style.horizontal == key.1 {
            return mappings[i].name.clone();
        }
        i = i + 1;
    }
    crate::text::string_of("fallback")
}

/// Appends the chars of a char vector.
fn push_chars(out: &mut Vec<char>, s: &Vec<char>)
    ensures
        final(out)@ == old(out)@ + s@,
{
    let mut i: usize = 0;
    while i < s.len()
        invariant
            i <= s@.len(),
            out@ == old(out)@ + s@.take(i as int),
        decreases s@.len() - i,
    {
        out.push(s[i]);
        i = i + 1;
        assert(out@ =~= old(out)@ + s@.take(i as int));
    }
    assert(s@.take(s@.len() as int) =~= s@);
}

/// Appends a text's lines, each followed by `"\r\n"`.
fn push_crlf_lines(out: &mut Vec<char>, text: &String)
    ensures
        final(out)@ == old(out)@ + crlf_lines(lines_from(text@, 0)),
{
    let chars = crate::text::chars_of(text.as_str());
    let ls = split_lines(&chars);
    let ghost lv = ls@.map_values(|l: Vec<char>| l@);
    let mut i: usize = 0;
    while i < ls.len()
        invariant
            i <= ls@.len(),
            lv == ls@.map_values(|l: Vec<char>| l@),
            lv == lines_from(text@, 0),
            out@ == old(out)@ + crlf_lines(lv.take(i as int)),
        decreases ls@.len() - i,
    {
        assert(lv.take(i as int + 1).drop_last() =~= lv.take(i as int));
        push_chars(out, &ls[i]);
        push_str(out, "\r\n");
        i = i + 1;
        assert(out@ =~= old(out)@ + crlf_lines(lv.take(i as int)));
    }
    assert(lv.take(ls@.len() as int) =~= lv);
}

/// Appends a text.
fn push_string(out: &mut Vec<char>, s: &String)
    ensures
        final(out)@ == old(out)@ + s@,
{
    push_str(out, s.as_str());
}

/// Lemma: each stored marker named by a list is a value of the store.
pub proof fn lemma_present_key(ids: Seq<MarkerId>, ms: Map<MarkerId, MarkerView>, j: int) -> (key: MarkerId)
    requires
        0 <= j < present_markers(ids, ms).len(),
    ensures
        ms.contains_key(key),
        ms[key] == present_markers(ids, ms)[j],
    decreases ids.len(),
{
    let rest = present_markers(ids.drop_last(), ms);
    if ms.contains_key(ids.last()) && j == rest.len() {
        ids.last()
    } else {
        lemma_present_key(ids.drop_last(), ms, j)
    }
}

/// Appends a marker's block.
fn push_marker_block(out: &mut Vec<char>, q: usize, item: &LabelplusExportMarker)
    requires
        q < usize::MAX,
    ensures
        final(out)@ == old(out)@ + marker_block(q as int, item@),
{
    push_str(out, "----------------[");
    push_decimal(out, (q + 1) as u64);
    push_str(out, "]----------------[");
    push_string(out, &item.x);
    push_str(out, ",");
    push_string(out, &item.y);
    push_str(out, ",");
    push_decimal(out, item.type_id as u64);
    push_str(out, "]\r\n");
    push_crlf_lines(out, &item.translation);
    assert(final(out)@ =~= old(out)@ + marker_block(q as int, item@));
}

/// Two decimal digits at least.
fn push_two_digits(out: &mut Vec<char>, n: usize)
    ensures
        final(out)@ == old(out)@ + two_digits(n as nat),
{
    if n < 10 {
        push_str(out, "0");
    }
    push_decimal(out, n as u64);
    if n < 10 {
        assert(final(out)@ =~= old(out)@ + two_digits(n as nat));
    } else {
        assert(final(out)@ =~= old(out)@ + two_digits(n as nat));
    }
}

/// Lemma: the identifiers of one more page are those of the pages before
/// and of that page.
pub proof fn lemma_flat_ids_step(ids: Seq<ImageId>, i: int, by_image: Map<ImageId, Seq<MarkerId>>)
    requires
        0 <= i < ids.len(),
    ensures
        flat_ids(ids.take(i + 1), by_image) == flat_ids(ids.take(i), by_image) + page_list(by_image, ids[i]),
{
    assert(ids.take(i + 1).drop_last() =~= ids.take(i));
}

/// Whether `text` is a LabelPlus file of project `project_id` (which is
/// stored): the head with the type names of the layouts its markers use,
/// then each stored page with its markers sorted by index, coordinates
/// taken from `cv`.
pub open spec fn exported_text(
    state: AppState,
    project_id: ProjectId,
    cv: Map<MarkerId, (Seq<char>, Seq<char>)>,
    text: Seq<char>,
) -> bool {
    let p = state.projects@[project_id];
    let styles = styles_seen(flat_ids(p.image_ids, state.markers@.by_image), state.markers@.markers);
    let pages = export_pages(p.image_ids, state.images@.images);
    exists|lists: Seq<Seq<ExportMarker>>, sorteds: Seq<Seq<MarkerView>>|
        #![trigger export_lists_ok(lists, sorteds, pages, state.markers@.by_image, state.markers@.markers, styles, cv)]
        export_lists_ok(lists, sorteds, pages, state.markers@.by_image, state.markers@.markers, styles, cv) && text
            == export_head(type_names_for(styles), p.source_language, p.target_language) + page_sections(
            pages,
            export_map(pages, lists),
        )
}

/// Writes a project as a LabelPlus file: the head with the type names of
/// the layouts its markers use, then each stored page with its markers
/// sorted by index (see `export_head`, `page_sections`). Coordinates come
/// from `coords`, which must hold every stored marker.
pub fn export_labelplus_data(state: &AppState, project_id: ProjectId, coords: &HashMap<MarkerId, MarkerCoordText>) -> (r:
    CoreResult<String>)
    requires
        forall|k: MarkerId|
            state.markers@.markers.contains_key(k) ==> #[trigger] coords@.contains_key(state.markers@.markers[k].id),
    ensures
        !state.projects@.contains_key(project_id) ==> (r matches Err(e) && is_project_not_found(e, project_id)),
        state.projects@.contains_key(project_id) ==> (r matches Ok(text) && exported_text(
            *state,
            project_id,
            coords@.map_values(|c: MarkerCoordText| c@),
            text@,
        )),
{
    let (image_ids, source_language, target_language) = match state.projects.get(project_id) {
        Some(p) => (p.image_ids.clone(), p.source_language, p.target_language),
        None => {
            return Err(project_not_found(project_id));
        },
    };
    let ghost by_image = state.markers@.by_image;
    let ghost ms = state.markers@.markers;
    let ghost cv = coords@.map_values(|c: MarkerCoordText| c@);
    // The layouts met, in order.
    let mut styles: Vec<(bool, bool)> = Vec::new();
    let mut i: usize = 0;
    while i < image_ids.len()
        invariant
            i <= image_ids@.len(),
            by_image == state.markers@.by_image,
            ms == state.markers@.markers,
            styles@ == styles_seen(flat_ids(image_ids@.take(i as int), by_image), ms),
        decreases image_ids@.len() - i,
    {
        proof {
            lemma_flat_ids_step(image_ids@, i as int, by_image);
        }
        let ghost before = flat_ids(image_ids@.take(i as int), by_image);
        match state.markers.image_list(image_ids[i]) {
            Some(list) => {
                let mut j: usize = 0;
                while j < list.len()
                    invariant
                        j <= list@.len(),
                        list@ == page_list(by_image, image_ids@[i as int]),
                        ms == state.markers@.markers,
                        styles@ == styles_seen(before + list@.take(j as int), ms),
                    decreases list@.len() - j,
                {
                    assert((before + list@.take(j as int + 1)).drop_last() =~= before + list@.take(j as int));
                    match state.markers.get(list[j]) {
                        Some(m) => {
                            let key = (m.style.overlay_text, m.style.horizontal);
                            let mut seen = false;
                            let mut q: usize = 0;
                            while q < styles.len()
                                invariant
                                    q <= styles@.len(),
                                    seen == (exists|t: int| 0 <= t < q && styles@[t] == key),
                                decreases styles@.len() - q,
                            {
                                if styles[q].0 == key.0 && styles[q].1 == key.1 {
                                    seen = true;
                                }
                                q = q + 1;
                            }
                            if !seen {
                                styles.push(key);
                            }
                        },
                        None => {},
                    }
                    j = j + 1;
                }
                assert(list@.take(list@.len() as int) =~= list@);
            },
            None => {
                assert(before + page_list(by_image, image_ids@[i as int]) =~= before);
            },
        }
        i = i + 1;
    }
    assert(image_ids@.take(image_ids@.len() as int) =~= image_ids@);
    let ghost sv = styles@;
    // The type names.
    let mapping = get_default_style_mapping();
    let mut type_names: Vec<String> = Vec::new();
    if styles.len() == 0 {
        type_names.push(crate::text::string_of("fallback"));
    } else {
        let mut t: usize = 0;
        while t < styles.len() && t < 9
            invariant
                t <= styles@.len(),
                t <= 9,
                styles@ == sv,
                sv.len() > 0,
                mapping_views(mapping.type_mappings@) == default_type_mappings(),
                type_names@.map_values(|s: String| s@) == type_names_for(sv).take(t as int),
            decreases styles@.len() - t,
        {
            let name = if t >= 8 && styles.len() > 9 {
                crate::text::string_of("others")
            } else {
                style_name_exec(&mapping.type_mappings, styles[t])
            };
            assert(name@ == type_names_for(sv)[t as int]);
            let ghost prev = type_names@.map_values(|s: String| s@);
            type_names.push(name);
            assert(type_names@.map_values(|s: String| s@) =~= prev.push(type_names_for(sv)[t as int]));
            assert(type_names_for(sv).take(t as int + 1) =~= type_names_for(sv).take(t as int).push(
                type_names_for(sv)[t as int],
            ));
            t = t + 1;
            assert(type_names@.map_values(|s: String| s@) =~= type_names_for(sv).take(t as int));
        }
        assert(type_names_for(sv).take(t as int) =~= type_names_for(sv));
    }
    assert(type_names@.map_values(|s: String| s@) =~= type_names_for(sv));
    // The pages written and their markers.
    let mut ordered: Vec<String> = Vec::new();
    let ghost mut pages: Seq<(Seq<char>, ImageId)> = Seq::empty();
    let ghost mut lists: Seq<Seq<ExportMarker>> = Seq::empty();
    let ghost mut sorteds: Seq<Seq<MarkerView>> = Seq::empty();
    let mut by_name: StrMap<LabelplusExportList> = StrMap::new();
    assert(by_name.map() =~= export_map(pages, lists));
    let mut i: usize = 0;
    while i < image_ids.len()
        invariant
            i <= image_ids@.len(),
            by_image == state.markers@.by_image,
            ms == state.markers@.markers,
            cv == coords@.map_values(|c: MarkerCoordText| c@),
            forall|k: MarkerId|
                state.markers@.markers.contains_key(k) ==> #[trigger] coords@.contains_key(state.markers@.markers[k].id),
            styles@ == sv,
            pages == export_pages(image_ids@.take(i as int), state.images@.images),
            ordered@.len() == pages.len(),
            ordered@.map_values(|s: String| s@) == pages.map_values(|p: (Seq<char>, ImageId)| p.0),
            export_lists_ok(lists, sorteds, pages, by_image, ms, sv, cv),
            by_name.wf(),
            by_name.map() == export_map(pages, lists),
        decreases image_ids@.len() - i,
    {
        let id = image_ids[i];
        assert(image_ids@.take(i as int + 1).drop_last() =~= image_ids@.take(i as int));
        match state.images.get(id) {
            Some(img) => {
                let name = match &img.metadata.name {
                    Some(n) => n.clone(),
                    None => {
                        let mut m: Vec<char> = Vec::new();
                        push_two_digits(&mut m, ordered.len());
                        push_str(&mut m, ".jpeg");
                        string_from_chars(&m)
                    },
                };
                assert(img@ == state.images@.images[id]);
                assert(name@ == export_name(state.images@.images[id], pages.len()));
                let mut page_ms = state.get_markers_for_image(id).unwrap();
                let ghost unsorted = page_ms@;
                sort_markers_by_index(&mut page_ms);
                proof {
                    lemma_sorted_views(unsorted, page_ms@);
                }
                let ghost sorted = page_ms@.map_values(|m: Marker| m@);
                proof {
                    let pm = present_markers(page_list(by_image, id), ms);
                    assert forall|k: int| 0 <= k < sorted.len() implies coords@.contains_key(#[trigger] sorted[k].id) by {
                        assert(page_ms@[k] == page_ms@[k]);
                        let j = choose|j: int| 0 <= j < unsorted.len() && page_ms@[k] == #[trigger] unsorted[j];
                        assert(unsorted.map_values(|m: Marker| m@)[j] == unsorted[j]@);
                        assert(pm[j] == unsorted[j]@);
                        let key = lemma_present_key(page_list(by_image, id), ms, j);
                        assert(coords@.contains_key(ms[key].id));
                    }
                }
                let mut items: Vec<LabelplusExportMarker> = Vec::new();
                let mut j: usize = 0;
                while j < page_ms.len()
                    invariant
                        j <= page_ms@.len(),
                        sorted == page_ms@.map_values(|m: Marker| m@),
                        sorted.len() == present_markers(page_list(by_image, id), ms).len(),
                        forall|k: int| 0 <= k < sorted.len() ==> coords@.contains_key(#[trigger] sorted[k].id),
                        cv == coords@.map_values(|c: MarkerCoordText| c@),
                        styles@ == sv,
                        items@.map_values(|m: LabelplusExportMarker| m@) == export_markers(sorted, sv, cv).take(
                            j as int,
                        ),
                    decreases page_ms@.len() - j,
                {
                    let m = &page_ms[j];
                    assert(sorted[j as int] == m@);
                    assert(coords@.contains_key(sorted[j as int].id));
                    let c = coords.get(&m.id).unwrap();
                    let ghost prev_items = items@.map_values(|m: LabelplusExportMarker| m@);
                    let tid = type_of_style_exec(&styles, (m.style.overlay_text, m.style.horizontal));
                    items.push(
                        LabelplusExportMarker {
                            x: c.x.clone(),
                            y: c.y.clone(),
                            type_id: tid,
                            translation: m.translation.clone(),
                        },
                    );
                    assert(items@.map_values(|m: LabelplusExportMarker| m@) =~= prev_items.push(
                        export_markers(sorted, sv, cv)[j as int],
                    ));
                    j = j + 1;
                    assert(items@.map_values(|m: LabelplusExportMarker| m@) =~= export_markers(sorted, sv, cv).take(
                        j as int,
                    ));
                }
                assert(export_markers(sorted, sv, cv).take(page_ms@.len() as int) =~= export_markers(sorted, sv, cv));
                let ghost lv = export_markers(sorted, sv, cv);
                proof {
                    lemma_export_map_prefix(pages, lists, lv);
                    let np = pages.push((name@, id));
                    let nl = lists.push(lv);
                    assert(np.drop_last() =~= pages);
                    let ns = sorteds.push(sorted);
                    assert(unsorted.map_values(|m: Marker| m@) == present_markers(page_list(by_image, id), ms));
                    assert(np[pages.len() as int].1 == id);
                    assert forall|k: int| 0 <= k < np.len() implies sorted_by_index(
                        present_markers(page_list(by_image, np[k].1), ms),
                        #[trigger] ns[k],
                    ) by {
                        if k < pages.len() {
                            assert(ns[k] == sorteds[k]);
                            assert(np[k] == pages[k]);
                        }
                    }
                    assert forall|k: int| 0 <= k < np.len() implies #[trigger] nl[k] == export_markers(ns[k], sv, cv) by {
                        if k < pages.len() {
                            assert(ns[k] == sorteds[k]);
                            assert(nl[k] == lists[k]);
                        }
                    }
                    sorteds = ns;
                    pages = np;
                    lists = nl;
                }
                if items.len() > 0 {
                    by_name.insert(name.clone(), LabelplusExportList { items });
                }
                let ghost prev_ordered = ordered@.map_values(|s: String| s@);
                ordered.push(name);
                assert(ordered@.map_values(|s: String| s@) =~= prev_ordered.push(pages.last().0));
                assert(pages.map_values(|p: (Seq<char>, ImageId)| p.0) =~= pages.drop_last().map_values(
                    |p: (Seq<char>, ImageId)| p.0,
                ).push(pages.last().0));
            },
            None => {},
        }
        i = i + 1;
    }
    assert(image_ids@.take(image_ids@.len() as int) =~= image_ids@);
    // The text.
    let mut out: Vec<char> = Vec::new();
    push_str(&mut out, "1,0\r\n-\r\n");
    let mut t: usize = 0;
    let ghost names = type_names@.map_values(|s: String| s@);
    while t < type_names.len()
        invariant
            t <= type_names@.len(),
            names == type_names@.map_values(|s: String| s@),
            out@ == "1,0\r\n-\r\n"@ + crlf_lines(names.take(t as int)),
        decreases type_names@.len() - t,
    {
        assert(names.take(t as int + 1).drop_last() =~= names.take(t as int));
        push_string(&mut out, &type_names[t]);
        push_str(&mut out, "\r\n");
        t = t + 1;
        assert(out@ =~= "1,0\r\n-\r\n"@ + crlf_lines(names.take(t as int)));
    }
    assert(names.take(type_names@.len() as int) =~= names);
    push_str(&mut out, "-\r\n");
    push_str(&mut out, "Exported from Bubblefish | Source: ");
    push_str(&mut out, source_language.display_name());
    push_str(&mut out, " | Target: ");
    push_str(&mut out, target_language.display_name());
    push_str(&mut out, "\r\n");
    let ghost head = out@;
    assert(head =~= export_head(type_names_for(sv), source_language, target_language));
    let ghost m = by_name.map();
    let mut k: usize = 0;
    while k < ordered.len()
        invariant
            k <= ordered@.len(),
            ordered@.len() == pages.len(),
            ordered@.map_values(|s: String| s@) == pages.map_values(|p: (Seq<char>, ImageId)| p.0),
            by_name.wf(),
            by_name.map() == m,
            out@ == head + page_sections(pages.take(k as int), m),
        decreases ordered@.len() - k,
    {
        assert(pages.take(k as int + 1).drop_last() =~= pages.take(k as int));
        assert(ordered@.map_values(|s: String| s@)[k as int] == ordered@[k as int]@);
        assert(pages.map_values(|p: (Seq<char>, ImageId)| p.0)[k as int] == pages[k as int].0);
        assert(ordered@[k as int]@ == pages[k as int].0);
        push_str(&mut out, ">>>>>>>>[");
        push_string(&mut out, &ordered[k]);
        push_str(&mut out, "]<<<<<<<<\r\n");
        let ghost sec_start = out@;
        match by_name.get(ordered[k].as_str()) {
            Some(list) => {
                let ghost lv = list@;
                let mut q: usize = 0;
                while q < list.items.len()
                    invariant
                        q <= list.items@.len(),
                        lv == list@,
                        out@ == sec_start + marker_blocks(lv.take(q as int)),
                    decreases list.items@.len() - q,
                {
                    let item = &list.items[q];
                    assert(lv.take(q as int + 1).drop_last() =~= lv.take(q as int));
                    assert(lv[q as int] == item@);
                    push_marker_block(&mut out, q, item);
                    q = q + 1;
                    assert(out@ =~= sec_start + marker_blocks(lv.take(q as int)));
                }
                assert(lv.take(list.items@.len() as int) =~= lv);
            },
            None => {},
        }
        k = k + 1;
        assert(out@ =~= head + page_sections(pages.take(k as int), m));
    }
    assert(pages.take(ordered@.len() as int) =~= pages);
    assert(out@ == head + page_sections(pages, m));
    assert(m == export_map(pages, lists));
    assert(export_lists_ok(lists, sorteds, pages, by_image, ms, sv, cv));
    assert(sv == styles_seen(flat_ids(image_ids@, by_image), ms));
    assert(pages == export_pages(image_ids@, state.images@.images));
    assert(head == export_head(type_names_for(sv), source_language, target_language));
    let ghost p = state.projects@[project_id];
    assert(image_ids@ == p.image_ids);
    assert(source_language == p.source_language && target_language == p.target_language);
    assert(export_lists_ok(
        lists,
        sorteds,
        export_pages(p.image_ids, state.images@.images),
        state.markers@.by_image,
        state.markers@.markers,
        styles_seen(flat_ids(p.image_ids, state.markers@.by_image), state.markers@.markers),
        coords@.map_values(|c: MarkerCoordText| c@),
    ));
    Ok(string_from_chars(&out))
}

} // verus!
