use vstd::prelude::*;
use crate::ids::{ImageId, MarkerId};
use crate::image::ImageView;
use crate::marker::{MarkerStyle, MarkerView};
use crate::project::ProjectView;
use crate::state::present_markers;
use crate::text::{decimal, digit_char};
use crate::labelplus_export::{first_index, style_key, styles_seen};
use crate::bf::{
    BfProjectData,
    bf_entry,
    bf_page_markers,
    bf_page_entries,
    bf_style,
    bf_style_entries,
    bf_style_map,
    describes_project,
    entry_geometry,
    entry_lists,
    entry_style,
    entry_text,
    image_marker_ids,
    lemma_first_index_bound,
    style_views,
};

verus! {

/// Lemma: the decimal text of a number has one digit, or more than one
/// for a number of ten or more.
pub proof fn lemma_decimal_len(n: nat)
    ensures
        decimal(n).len() >= 1,
        n >= 10 ==> decimal(n).len() >= 2,
    decreases n,
{
    if n >= 10 {
        lemma_decimal_len(n / 10);
    }
}

/// Lemma: different numbers have different decimal texts.
pub proof fn lemma_decimal_injective(a: nat, b: nat)
    requires
        decimal(a) == decimal(b),
    ensures
        a == b,
    decreases a + b,
{
    lemma_decimal_len(a);
    lemma_decimal_len(b);
    if a < 10 && b < 10 {
        assert(decimal(a)[0] == digit_char(a as int));
        assert(decimal(b)[0] == digit_char(b as int));
        assert(digit_char(a as int) as int == 48 + a);
        assert(digit_char(b as int) as int == 48 + b);
    } else if a >= 10 && b >= 10 {
        let da = decimal(a);
        let db = decimal(b);
        assert(da.last() == db.last());
        assert(digit_char((a % 10) as int) as int == 48 + a % 10);
        assert(digit_char((b % 10) as int) as int == 48 + b % 10);
        assert(da.drop_last() =~= decimal(a / 10));
        assert(db.drop_last() =~= decimal(b / 10));
        lemma_decimal_injective(a / 10, b / 10);
    }
}

/// Lemma: in a list of layouts with distinct identifiers, each identifier
/// maps to its own layout.
pub proof fn lemma_style_map_lookup(s: Seq<(Seq<char>, bool, bool)>, i: int)
    requires
        0 <= i < s.len(),
        forall|a: int, b: int| 0 <= a < b < s.len() ==> s[a].0 != s[b].0,
    ensures
        bf_style_map(s).contains_key(s[i].0),
        bf_style_map(s)[s[i].0] == (MarkerStyle { overlay_text: s[i].1, horizontal: s[i].2 }),
    decreases s.len(),
{
    if i < s.len() - 1 {
        assert(s.drop_last()[i] == s[i]);
        lemma_style_map_lookup(s.drop_last(), i);
        assert(s[i].0 != s.last().0);
    }
}

/// Lemma: the layout identifier written for a layout that was met names
/// that layout among the layouts written.
pub proof fn lemma_written_style(keys: Seq<(bool, bool)>, k: (bool, bool))
    requires
        keys.contains(k),
    ensures
        bf_style(bf_style_map(bf_style_entries(keys)), decimal(first_index(keys, k) as nat)) == (MarkerStyle {
            overlay_text: k.0,
            horizontal: k.1,
        }),
{
    lemma_first_index_bound(keys, k);
    let i = first_index(keys, k);
    let es = bf_style_entries(keys);
    assert(keys.len() > 0);
    assert forall|a: int, b: int| 0 <= a < b < es.len() implies es[a].0 != es[b].0 by {
        if es[a].0 == es[b].0 {
            lemma_decimal_injective(a as nat, b as nat);
        }
    }
    lemma_style_map_lookup(es, i);
}

/// Law: a marker written to a project file reads back with its geometry,
/// its text and its layout (the layout identifier written for it names its
/// own layout among the layouts written), given that its layout is among
/// those met.
pub proof fn law_saved_marker_reads_back(m: MarkerView, keys: Seq<(bool, bool)>)
    requires
        keys.contains(style_key(m)),
    ensures
        entry_geometry(bf_entry(m, keys)) == m.geometry,
        entry_text(bf_entry(m, keys)) == m.translation,
        bf_style(bf_style_map(bf_style_entries(keys)), entry_style(bf_entry(m, keys))) == m.style,
{
    lemma_written_style(keys, style_key(m));
}

/// Lemma: the entries written for a page are its stored markers, written
/// one by one, in list order.
pub proof fn lemma_page_entries(list: Seq<MarkerId>, ms: Map<MarkerId, MarkerView>, keys: Seq<(bool, bool)>)
    ensures
        bf_page_entries(list, ms, keys) == present_markers(list, ms).map_values(|m: MarkerView| bf_entry(m, keys)),
    decreases list.len(),
{
    if list.len() > 0 {
        lemma_page_entries(list.drop_last(), ms, keys);
        assert(bf_page_entries(list, ms, keys) =~= present_markers(list, ms).map_values(
            |m: MarkerView| bf_entry(m, keys),
        ));
    }
}

/// Lemma: each stored marker that a list names comes from an identifier on
/// the list.
pub proof fn lemma_present_from_list(ids: Seq<MarkerId>, ms: Map<MarkerId, MarkerView>, j: int) -> (key: MarkerId)
    requires
        0 <= j < present_markers(ids, ms).len(),
    ensures
        ids.contains(key),
        ms.contains_key(key),
        ms[key] == present_markers(ids, ms)[j],
    decreases ids.len(),
{
    let rest = present_markers(ids.drop_last(), ms);
    if ms.contains_key(ids.last()) && j == rest.len() {
        assert(ids[ids.len() - 1] == ids.last());
        ids.last()
    } else {
        let k = lemma_present_from_list(ids.drop_last(), ms, j);
        let x = choose|x: int| 0 <= x < ids.drop_last().len() && ids.drop_last()[x] == k;
        assert(ids[x] == k);
        k
    }
}

/// Lemma: the layouts met include the layout of every stored marker named.
pub proof fn lemma_styles_seen_has(ids: Seq<MarkerId>, ms: Map<MarkerId, MarkerView>, id: MarkerId)
    requires
        ids.contains(id),
        ms.contains_key(id),
    ensures
        styles_seen(ids, ms).contains(style_key(ms[id])),
    decreases ids.len(),
{
    let prev = styles_seen(ids.drop_last(), ms);
    if ids.last() != id {
        let x = choose|x: int| 0 <= x < ids.len() && ids[x] == id;
        assert(ids.drop_last()[x] == id);
        lemma_styles_seen_has(ids.drop_last(), ms, id);
        let y = choose|y: int| 0 <= y < prev.len() && prev[y] == style_key(ms[id]);
        assert(styles_seen(ids, ms)[y] == style_key(ms[id]));
    } else if prev.contains(style_key(ms[id])) {
        let y = choose|y: int| 0 <= y < prev.len() && prev[y] == style_key(ms[id]);
        assert(styles_seen(ids, ms)[y] == style_key(ms[id]));
    } else {
        assert(styles_seen(ids, ms).last() == style_key(ms[id]));
    }
}

/// Lemma: the marker identifiers of a project's stored pages include those
/// on the list of each stored page.
pub proof fn lemma_page_ids_collected(ids: Seq<ImageId>, images: Map<ImageId, ImageView>, i: int, id: MarkerId)
    requires
        0 <= i < ids.len(),
        images.contains_key(ids[i]),
        images[ids[i]].marker_ids.contains(id),
    ensures
        image_marker_ids(ids, images).contains(id),
    decreases ids.len(),
{
    let prev = image_marker_ids(ids.drop_last(), images);
    if i == ids.len() - 1 {
        let x = choose|x: int| 0 <= x < images[ids[i]].marker_ids.len() && images[ids[i]].marker_ids[x] == id;
        assert(image_marker_ids(ids, images)[prev.len() + x] == id);
    } else {
        assert(ids.drop_last()[i] == ids[i]);
        lemma_page_ids_collected(ids.drop_last(), images, i, id);
        let y = choose|y: int| 0 <= y < prev.len() && prev[y] == id;
        assert(image_marker_ids(ids, images)[y] == id);
    }
}

/// Law: reading back a project file written for a project gives, for each
/// of its stored pages, the page's stored markers in list order, each with
/// its geometry, text and layout.
pub proof fn law_saved_pages_read_back(
    d: BfProjectData,
    p: ProjectView,
    images: Map<ImageId, ImageView>,
    ms: Map<MarkerId, MarkerView>,
    i: int,
)
    requires
        describes_project(d, p, images, ms),
        0 <= i < p.image_ids.len(),
        images.contains_key(p.image_ids[i]),
    ensures
        ({
            let es = entry_lists(d.markers@)[i];
            let pm = present_markers(images[p.image_ids[i]].marker_ids, ms);
            let sm = bf_style_map(style_views(d.styles@));
            &&& es.len() == pm.len()
            &&& forall|j: int|
                0 <= j < es.len() ==> {
                    &&& #[trigger] entry_geometry(es[j]) == pm[j].geometry
                    &&& entry_text(es[j]) == pm[j].translation
                    &&& bf_style(sm, entry_style(es[j])) == pm[j].style
                }
        }),
{
    let list = images[p.image_ids[i]].marker_ids;
    let keys = styles_seen(image_marker_ids(p.image_ids, images), ms);
    let es = entry_lists(d.markers@)[i];
    let pm = present_markers(list, ms);
    lemma_page_entries(list, ms, keys);
    assert(es == pm.map_values(|m: MarkerView| bf_entry(m, keys)));
    assert forall|j: int| 0 <= j < es.len() implies {
        &&& #[trigger] entry_geometry(es[j]) == pm[j].geometry
        &&& entry_text(es[j]) == pm[j].translation
        &&& bf_style(bf_style_map(style_views(d.styles@)), entry_style(es[j])) == pm[j].style
    } by {
        let key = lemma_present_from_list(list, ms, j);
        lemma_page_ids_collected(p.image_ids, images, i, key);
        lemma_styles_seen_has(image_marker_ids(p.image_ids, images), ms, key);
        assert(es[j] == bf_entry(pm[j], keys));
        law_saved_marker_reads_back(pm[j], keys);
    }
}

/// Law: importing a page of a project file written for a project (see
/// `bf_imports`) onto a page `img` gives that page the written page's
/// stored markers in list order, each with its geometry, text and layout,
/// numbered 1, 2, 3, ...
pub proof fn law_saved_pages_import_back(
    d: BfProjectData,
    p: ProjectView,
    images: Map<ImageId, ImageView>,
    ms: Map<MarkerId, MarkerView>,
    i: int,
    img: ImageId,
    first: int,
    start: u32,
)
    requires
        describes_project(d, p, images, ms),
        0 <= i < p.image_ids.len(),
        images.contains_key(p.image_ids[i]),
    ensures
        ({
            let nm = bf_page_markers(
                entry_lists(d.markers@)[i],
                img,
                bf_style_map(style_views(d.styles@)),
                first,
                start,
            );
            let pm = present_markers(images[p.image_ids[i]].marker_ids, ms);
            &&& nm.len() == pm.len()
            &&& forall|j: int|
                0 <= j < nm.len() ==> {
                    &&& #[trigger] nm[j].geometry == pm[j].geometry
                    &&& nm[j].translation == pm[j].translation
                    &&& nm[j].style == pm[j].style
                    &&& nm[j].image_id == img
                    &&& nm[j].image_index == (j + 1) as u32
                }
        }),
{
    law_saved_pages_read_back(d, p, images, ms, i);
    let es = entry_lists(d.markers@)[i];
    let pm = present_markers(images[p.image_ids[i]].marker_ids, ms);
    let nm = bf_page_markers(es, img, bf_style_map(style_views(d.styles@)), first, start);
    assert forall|j: int| 0 <= j < nm.len() implies {
        &&& #[trigger] nm[j].geometry == pm[j].geometry
        &&& nm[j].translation == pm[j].translation
        &&& nm[j].style == pm[j].style
        &&& nm[j].image_id == img
        &&& nm[j].image_index == (j + 1) as u32
    } by {
        assert(entry_geometry(es[j]) == pm[j].geometry);
    }
}

} // verus!
