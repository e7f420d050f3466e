use vstd::prelude::*;
use crate::ids::{ImageId, MarkerId};
use crate::marker::MarkerView;
use crate::state::{MarkerStorageView, ImageStorageView, page_list};
use crate::image::{ImageView, image_updated};
use crate::project::push_unique;
use crate::marker_service::{first_present, inserted_all, images_with_entries, own_pages, moved_in_order, order_shifted, max_index, next_index};

verus! {

/// Page `i` is in step: each marker it lists is listed once, stored under its
/// own id and belongs to `i`, and the image's own list (if the image is
/// stored) is the page list.
pub open spec fn page_in_step(s: MarkerStorageView, imgs: ImageStorageView, i: ImageId) -> bool {
    let ids = page_list(s.by_image, i);
    &&& ids.no_duplicates()
    &&& forall|k: int|
        0 <= k < ids.len() ==> {
            &&& s.markers.contains_key(#[trigger] ids[k])
            &&& s.markers[ids[k]].id == ids[k]
            &&& s.markers[ids[k]].image_id == i
        }
    &&& imgs.images.contains_key(i) ==> imgs.images[i].marker_ids == ids
}

/// The stored markers of the listed ids, in list order.
pub open spec fn markers_of(ids: Seq<MarkerId>, ms: Map<MarkerId, MarkerView>) -> Seq<MarkerView> {
    ids.map_values(|k: MarkerId| ms[k])
}

proof fn lemma_first_present_all(ids: Seq<MarkerId>, ms: Map<MarkerId, MarkerView>)
    requires
        ids.no_duplicates(),
        forall|k: int| 0 <= k < ids.len() ==> ms.contains_key(#[trigger] ids[k]),
    ensures
        first_present(ids, ms) == markers_of(ids, ms),
    decreases ids.len(),
{
    if ids.len() > 0 {
        let p = ids.drop_last();
        assert forall|k: int| 0 <= k < p.len() implies ms.contains_key(#[trigger] p[k]) by {
            assert(p[k] == ids[k]);
        }
        assert(p.no_duplicates()) by {
            assert forall|a: int, b: int| 0 <= a < p.len() && 0 <= b < p.len() && a != b implies p[a] != p[b] by {
                assert(p[a] == ids[a] && p[b] == ids[b]);
            }
        }
        lemma_first_present_all(p, ms);
        assert(!p.contains(ids.last())) by {
            if p.contains(ids.last()) {
                let j = choose|j: int| 0 <= j < p.len() && p[j] == ids.last();
                assert(ids[j] == ids[ids.len() - 1]);
            }
        }
        assert(ms.contains_key(ids[ids.len() - 1]));
        assert(markers_of(ids, ms) =~= markers_of(p, ms).push(ms[ids.last()]));
    }
}

/// Storing the first `k` taken markers back: the taken ids reappear one by
/// one, and the page lists them in their old order.
proof fn lemma_restore_prefix(s: MarkerStorageView, s1: MarkerStorageView, i: ImageId, k: int)
    requires
        page_in_step(s, ImageStorageView { images: Map::empty(), current_memory: 0, max_memory: 0 }, i),
        s1.markers == s.markers.remove_keys(page_list(s.by_image, i).to_set()),
        s1.by_image == s.by_image.remove(i),
        0 <= k <= page_list(s.by_image, i).len(),
    ensures
        ({
            let ids = page_list(s.by_image, i);
            let r = inserted_all(s1, markers_of(ids, s.markers).take(k));
            &&& r.markers == s.markers.remove_keys(ids.subrange(k, ids.len() as int).to_set())
            &&& page_list(r.by_image, i) == ids.take(k)
            &&& forall|j: ImageId| j != i ==> page_list(#[trigger] r.by_image, j) == page_list(s.by_image, j)
        }),
    decreases k,
{
    let ids = page_list(s.by_image, i);
    let vs = markers_of(ids, s.markers);
    if k == 0 {
        assert(vs.take(0) =~= Seq::<MarkerView>::empty());
        assert(ids.subrange(0, ids.len() as int) =~= ids);
        assert(ids.take(0) =~= Seq::<MarkerId>::empty());
    } else {
        lemma_restore_prefix(s, s1, i, k - 1);
        assert(vs.take(k).drop_last() =~= vs.take(k - 1));
        let prev = inserted_all(s1, vs.take(k - 1));
        let m = vs.take(k).last();
        assert(m == s.markers[ids[k - 1]]);
        assert(m.id == ids[k - 1]);
        assert(m.image_id == i);
        assert(ids.take(k - 1).push(ids[k - 1]) =~= ids.take(k));
        let rest = ids.subrange(k, ids.len() as int);
        let rest1 = ids.subrange(k - 1, ids.len() as int);
        assert(rest1.to_set() =~= rest.to_set().insert(ids[k - 1])) by {
            assert forall|x: MarkerId| rest1.to_set().contains(x) <==> rest.to_set().insert(ids[k - 1]).contains(
                x,
            ) by {
                if rest1.to_set().contains(x) {
                    let j = choose|j: int| 0 <= j < rest1.len() && rest1[j] == x;
                    if j > 0 {
                        assert(rest[j - 1] == x);
                    }
                }
                if rest.to_set().contains(x) {
                    let j = choose|j: int| 0 <= j < rest.len() && rest[j] == x;
                    assert(rest1[j + 1] == x);
                }
                if x == ids[k - 1] {
                    assert(rest1[0] == x);
                }
            }
        }
        assert(!rest.to_set().contains(ids[k - 1])) by {
            if rest.to_set().contains(ids[k - 1]) {
                let j = choose|j: int| 0 <= j < rest.len() && rest[j] == ids[k - 1];
                assert(ids[k + j] == ids[k - 1]);
            }
        }
        assert(inserted_all(s1, vs.take(k)).markers =~= s.markers.remove_keys(rest.to_set()));
    }
}

/// Entering the first `k` taken markers back into the cleared image's list
/// lists them in their old order.
proof fn lemma_relist_prefix(imgs: ImageStorageView, imgs1: ImageStorageView, s: MarkerStorageView, i: ImageId, k: int)
    requires
        page_in_step(s, imgs, i),
        imgs.images.contains_key(i),
        imgs1 == (ImageStorageView {
            images: imgs.images.insert(i, ImageView { marker_ids: Seq::empty(), ..imgs.images[i] }),
            ..imgs
        }),
        0 <= k <= page_list(s.by_image, i).len(),
    ensures
        ({
            let ids = page_list(s.by_image, i);
            images_with_entries(imgs1, own_pages(markers_of(ids, s.markers)).take(k)) == (ImageStorageView {
                images: imgs.images.insert(i, ImageView { marker_ids: ids.take(k), ..imgs.images[i] }),
                ..imgs
            })
        }),
    decreases k,
{
    let ids = page_list(s.by_image, i);
    let es = own_pages(markers_of(ids, s.markers));
    if k == 0 {
        assert(es.take(0) =~= Seq::<(ImageId, MarkerId)>::empty());
        assert(ids.take(0) =~= Seq::<MarkerId>::empty());
    } else {
        lemma_relist_prefix(imgs, imgs1, s, i, k - 1);
        assert(es.take(k).drop_last() =~= es.take(k - 1));
        assert(es.take(k).last() == (i, ids[k - 1]));
        assert(!ids.take(k - 1).contains(ids[k - 1])) by {
            if ids.take(k - 1).contains(ids[k - 1]) {
                let t = ids.take(k - 1);
                let j = choose|j: int| 0 <= j < t.len() && t[j] == ids[k - 1];
                assert(ids[j] == ids[k - 1]);
            }
        }
        assert(push_unique(ids.take(k - 1), ids[k - 1]) =~= ids.take(k));
        let want = ImageStorageView {
            images: imgs.images.insert(i, ImageView { marker_ids: ids.take(k), ..imgs.images[i] }),
            ..imgs
        };
        assert(images_with_entries(imgs1, es.take(k)).images =~= want.images);
    }
}

/// Restoring what clearing a page took puts everything back: when page `i`
/// is in step, taking its markers and then restoring the taken markers
/// leaves the stored markers, every page's list and the images as they were.
pub proof fn law_restore_undoes_take(
    s: MarkerStorageView,
    imgs: ImageStorageView,
    i: ImageId,
    taken: Seq<MarkerView>,
    s1: MarkerStorageView,
    imgs1: ImageStorageView,
    s2: MarkerStorageView,
    imgs2: ImageStorageView,
)
    requires
        page_in_step(s, imgs, i),
        taken == first_present(page_list(s.by_image, i), s.markers),
        s1.markers == s.markers.remove_keys(page_list(s.by_image, i).to_set()),
        s1.by_image == s.by_image.remove(i),
        image_updated(imgs, imgs1, i, ImageView { marker_ids: Seq::empty(), ..imgs.images[i] }),
        s2 == inserted_all(s1, taken),
        imgs2 == images_with_entries(imgs1, own_pages(taken)),
    ensures
        s2.markers == s.markers,
        forall|j: ImageId| page_list(#[trigger] s2.by_image, j) == page_list(s.by_image, j),
        imgs2 == imgs,
{
    let ids = page_list(s.by_image, i);
    let n = ids.len() as int;
    lemma_first_present_all(ids, s.markers);
    let vs = markers_of(ids, s.markers);
    assert(vs.take(n) =~= vs);
    assert(ids.take(n) =~= ids);
    lemma_restore_prefix(s, s1, i, n);
    assert(ids.subrange(n, n).to_set() =~= Set::<MarkerId>::empty());
    assert(s.markers.remove_keys(Set::<MarkerId>::empty()) =~= s.markers);
    assert forall|j: ImageId| page_list(#[trigger] s2.by_image, j) == page_list(s.by_image, j) by {
        if j == i {
            assert(page_list(s2.by_image, i) == ids.take(n));
        }
    }
    if imgs.images.contains_key(i) {
        assert(imgs1 == (ImageStorageView {
            images: imgs.images.insert(i, ImageView { marker_ids: Seq::empty(), ..imgs.images[i] }),
            ..imgs
        }));
        lemma_relist_prefix(imgs, imgs1, s, i, n);
        assert(own_pages(vs).take(n) =~= own_pages(vs));
        assert(imgs2.images =~= imgs.images);
    } else {
        assert(imgs1 == imgs);
        lemma_unlisted_page_unchanged(imgs, own_pages(vs), i);
    }
}

/// Entries for an image that is not stored change nothing.
proof fn lemma_unlisted_page_unchanged(imgs: ImageStorageView, es: Seq<(ImageId, MarkerId)>, i: ImageId)
    requires
        !imgs.images.contains_key(i),
        forall|k: int| 0 <= k < es.len() ==> (#[trigger] es[k]).0 == i,
    ensures
        images_with_entries(imgs, es) == imgs,
    decreases es.len(),
{
    if es.len() > 0 {
        let p = es.drop_last();
        assert forall|k: int| 0 <= k < p.len() implies (#[trigger] p[k]).0 == i by {
            assert(p[k] == es[k]);
        }
        lemma_unlisted_page_unchanged(imgs, p, i);
    }
}

/// The markers listed in `ids` carry the indices 1 to `ids.len()`, each once.
pub open spec fn numbered_one_to_n(ids: Seq<MarkerId>, ms: Map<MarkerId, MarkerView>) -> bool {
    &&& forall|k: int| 0 <= k < ids.len() ==> 1 <= #[trigger] ms[ids[k]].image_index <= ids.len()
    &&& forall|a: int, b: int|
        #![trigger ids[a], ids[b]]
        0 <= a < ids.len() && 0 <= b < ids.len() && a != b ==> ms[ids[a]].image_index != ms[ids[b]].image_index
}

pub proof fn lemma_moved_pointwise(ms: Map<MarkerId, MarkerView>, ids: Seq<MarkerId>, id: MarkerId, o: u32, n: u32)
    requires
        ids.no_duplicates(),
    ensures
        moved_in_order(ms, ids, id, o, n).dom() == ms.dom(),
        forall|x: MarkerId|
            #[trigger] ms.contains_key(x) ==> moved_in_order(ms, ids, id, o, n)[x] == (if ids.contains(x) {
                order_shifted(ms[x], id, o, n)
            } else {
                ms[x]
            }),
    decreases ids.len(),
{
    if ids.len() > 0 {
        let p = ids.drop_last();
        let k = ids.last();
        assert(p.no_duplicates()) by {
            assert forall|a: int, b: int| 0 <= a < p.len() && 0 <= b < p.len() && a != b implies p[a] != p[b] by {
                assert(p[a] == ids[a] && p[b] == ids[b]);
            }
        }
        lemma_moved_pointwise(ms, p, id, o, n);
        assert(!p.contains(k)) by {
            if p.contains(k) {
                let j = choose|j: int| 0 <= j < p.len() && p[j] == k;
                assert(ids[j] == ids[ids.len() - 1]);
            }
        }
        assert forall|x: MarkerId| ids.contains(x) <==> (p.contains(x) || x == k) by {
            if ids.contains(x) {
                let j = choose|j: int| 0 <= j < ids.len() && ids[j] == x;
                if j < ids.len() - 1 {
                    assert(p[j] == x);
                }
            }
            if p.contains(x) {
                let j = choose|j: int| 0 <= j < p.len() && p[j] == x;
                assert(ids[j] == x);
            }
            if x == k {
                assert(ids[ids.len() - 1] == x);
            }
        }
        let r = moved_in_order(ms, ids, id, o, n);
        assert(r.dom() =~= ms.dom());
    }
}

/// Moving a marker within its page keeps the page numbered 1 to n: when the
/// page's markers carry the indices 1 to n, each once, and the marker moves
/// to an index in that range, the page still carries 1 to n, each once; the
/// moved marker has the new index; any two other markers of the page keep
/// their relative order; only indices change; and markers of other pages
/// are untouched.
pub proof fn law_move_keeps_numbering(ms: Map<MarkerId, MarkerView>, ids: Seq<MarkerId>, id: MarkerId, new_index: u32)
    requires
        ids.no_duplicates(),
        forall|k: int| 0 <= k < ids.len() ==> ms.contains_key(#[trigger] ids[k]) && ms[ids[k]].id == ids[k],
        ids.contains(id),
        numbered_one_to_n(ids, ms),
        1 <= new_index <= ids.len(),
    ensures
        ({
            let r = moved_in_order(ms, ids, id, ms[id].image_index, new_index);
            &&& r.dom() == ms.dom()
            &&& numbered_one_to_n(ids, r)
            &&& r[id].image_index == new_index
            &&& forall|a: MarkerId, b: MarkerId|
                #![trigger r[a], r[b]]
                ids.contains(a) && ids.contains(b) && a != id && b != id && ms[a].image_index < ms[b].image_index
                    ==> r[a].image_index < r[b].image_index
            &&& forall|x: MarkerId|
                #[trigger] ms.contains_key(x) ==> r[x] == MarkerView { image_index: r[x].image_index, ..ms[x] }
            &&& forall|x: MarkerId| #[trigger] ms.contains_key(x) && !ids.contains(x) ==> r[x] == ms[x]
        }),
{
    let o = ms[id].image_index;
    let r = moved_in_order(ms, ids, id, o, new_index);
    lemma_moved_pointwise(ms, ids, id, o, new_index);
    let j = choose|j: int| 0 <= j < ids.len() && ids[j] == id;
    assert(ms[ids[j]].image_index == o);
    assert forall|k: int| 0 <= k < ids.len() implies 1 <= #[trigger] r[ids[k]].image_index <= ids.len() by {
        assert(ids.contains(ids[k]));
        assert(ms.contains_key(ids[k]));
    }
    assert forall|a: int, b: int|
        #![trigger ids[a], ids[b]]
        0 <= a < ids.len() && 0 <= b < ids.len() && a != b implies r[ids[a]].image_index != r[ids[b]].image_index by {
        assert(ids.contains(ids[a]) && ids.contains(ids[b]));
        assert(ms.contains_key(ids[a]) && ms.contains_key(ids[b]));
        assert(ids[a] != ids[b]);
        if ids[a] != id && ids[b] != id {
            if a != j {
                assert(ms[ids[a]].image_index != o);
            }
            if b != j {
                assert(ms[ids[b]].image_index != o);
            }
        }
        if ids[a] == id {
            assert(b != j);
            assert(ms[ids[b]].image_index != o);
        }
        if ids[b] == id {
            assert(a != j);
            assert(ms[ids[a]].image_index != o);
        }
    }
    assert forall|a: MarkerId, b: MarkerId|
        #![trigger r[a], r[b]]
        ids.contains(a) && ids.contains(b) && a != id && b != id && ms[a].image_index < ms[b].image_index
            implies r[a].image_index < r[b].image_index by {
        let ka = choose|k: int| 0 <= k < ids.len() && ids[k] == a;
        let kb = choose|k: int| 0 <= k < ids.len() && ids[k] == b;
        assert(ms.contains_key(ids[ka]) && ms.contains_key(ids[kb]));
        assert(ms[ids[ka]].image_index != ms[ids[j]].image_index);
        assert(ms[ids[kb]].image_index != ms[ids[j]].image_index);
    }
}

/// A new marker's index on its page is one past the largest index there:
/// above every marker already on the page, taken by none, and 1 on an empty
/// page.
pub proof fn law_new_marker_index_is_next(ms: Seq<MarkerView>)
    ensures
        forall|k: int| 0 <= k < ms.len() ==> (#[trigger] ms[k]).image_index < next_index(ms),
        ms.len() == 0 ==> next_index(ms) == 1,
        ms.len() > 0 ==> exists|k: int| 0 <= k < ms.len() && (#[trigger] ms[k]).image_index == next_index(ms) - 1,
    decreases ms.len(),
{
    if ms.len() > 0 {
        let p = ms.drop_last();
        law_new_marker_index_is_next(p);
        assert forall|k: int| 0 <= k < ms.len() implies (#[trigger] ms[k]).image_index < next_index(ms) by {
            if k < p.len() {
                assert(ms[k] == p[k]);
            }
        }
        assert(ms.drop_last() == p);
        if ms.last().image_index > max_index(p) {
            assert(max_index(ms) == ms.last().image_index);
            assert(ms[ms.len() - 1].image_index == next_index(ms) - 1);
        } else if p.len() == 0 {
            assert(max_index(p) == 0);
            assert(max_index(ms) == 0);
            assert(ms[ms.len() - 1].image_index == next_index(ms) - 1);
        } else {
            assert(max_index(ms) == max_index(p));
            let k = choose|k: int| 0 <= k < p.len() && (#[trigger] p[k]).image_index == next_index(p) - 1;
            assert(ms[k] == p[k]);
        }
    }
}

} // verus!
