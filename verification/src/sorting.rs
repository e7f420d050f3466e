use vstd::prelude::*;
use crate::ids::MarkerId;
use crate::marker::Marker;

verus! {

/// Whether entry `i` comes before entry `j` in a stable sort by `key`:
/// a smaller key, or an equal key and an earlier position.
pub open spec fn sorts_before<T>(s: Seq<T>, key: spec_fn(T) -> u32, i: int, j: int) -> bool {
    0 <= i < s.len() && 0 <= j < s.len() && (key(s[i]) < key(s[j]) || (key(s[i]) == key(s[j]) && i < j))
}

/// Where entry `j` lands in a stable sort by `key`: the number of entries
/// that come before it.
pub open spec fn stable_rank<T>(s: Seq<T>, key: spec_fn(T) -> u32, j: int) -> nat {
    Seq::new(s.len(), |i: int| i).filter(|i: int| sorts_before(s, key, i, j)).len()
}

/// `out` is `inp` sorted by `key`, entries with equal keys keeping their
/// order.
pub open spec fn stably_sorted<T>(inp: Seq<T>, out: Seq<T>, key: spec_fn(T) -> u32) -> bool {
    &&& out.len() == inp.len()
    &&& forall|j: int| 0 <= j < inp.len() ==> #[trigger] stable_rank(inp, key, j) < inp.len()
    &&& forall|j: int| 0 <= j < inp.len() ==> out[#[trigger] stable_rank(inp, key, j) as int] == inp[j]
    &&& forall|k: int|
        #![trigger out[k]]
        0 <= k < out.len() ==> exists|j: int| 0 <= j < inp.len() && out[k] == #[trigger] inp[j]
}

/// The index of an `(identifier, index)` pair.
pub open spec fn pair_index(p: (MarkerId, u32)) -> u32 {
    p.1
}

/// The per-page index of a marker.
pub open spec fn marker_index(m: Marker) -> u32 {
    m.image_index
}

/// Markers keyed by their per-page index.
pub open spec fn by_marker_index() -> spec_fn(Marker) -> u32 {
    |m: Marker| marker_index(m)
}

/// Marker views keyed by their per-page index.
pub open spec fn by_view_index() -> spec_fn(crate::marker::MarkerView) -> u32 {
    |m: crate::marker::MarkerView| m.image_index
}

/// Sorts `(identifier, index)` pairs by index with `slice::sort_by_key`,
/// which std documents as a stable sort: equal keys keep their order.
#[verifier::external_body]
pub fn sort_pairs_by_index(v: &mut Vec<(MarkerId, u32)>)
    ensures
        stably_sorted(old(v)@, final(v)@, |p: (MarkerId, u32)| pair_index(p)),
{
    v.sort_by_key(|p| p.1);
}

/// Sorts markers by their per-page index with `slice::sort_by_key`, which
/// std documents as a stable sort: equal keys keep their order.
#[verifier::external_body]
pub fn sort_markers_by_index(v: &mut Vec<Marker>)
    ensures
        stably_sorted(old(v)@, final(v)@, by_marker_index()),
{
    v.sort_by_key(|m| m.image_index);
}

} // verus!
