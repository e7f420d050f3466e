use vstd::prelude::*;
use std::collections::HashMap;
use vstd::std_specs::iter::IteratorSpec;

verus! {

broadcast use vstd::std_specs::hash::group_hash_axioms;

/// Whether `ks` lists each key of `dom` exactly once.
pub open spec fn enumerates(ks: Seq<u32>, dom: Set<u32>) -> bool {
    &&& ks.no_duplicates()
    &&& forall|k: u32| #[trigger] dom.contains(k) <==> ks.contains(k)
}

/// The keys of a map, each once, in the map's own order.
pub fn map_keys<V>(m: &HashMap<u32, V>) -> (r: Vec<u32>)
    ensures
        enumerates(r@, m@.dom()),
{
    let mut r: Vec<u32> = Vec::new();
    let ghost ks = m.keys().remaining().unref();
    for k in it: m.keys()
        invariant
            ks == it.seq().unref(),
            ks.no_duplicates(),
            ks.to_set() == m@.dom(),
            r@ == ks.subrange(0, it.index()),
    {
        r.push(*k);
        assert(r@ =~= ks.subrange(0, it.index() + 1));
    }
    assert(r@ =~= ks);
    assert forall|k: u32| #[trigger] m@.dom().contains(k) <==> r@.contains(k) by {
        if r@.contains(k) {
            assert(ks.to_set().contains(k));
        }
        if m@.dom().contains(k) {
            assert(ks.to_set().contains(k));
        }
    }
    r
}

/// `s` with every occurrence of `x` dropped, the rest in order.
pub open spec fn without(s: Seq<u32>, x: u32) -> Seq<u32> {
    s.filter(differs_from(x))
}

/// The predicate "is not `x`".
pub open spec fn differs_from(x: u32) -> spec_fn(u32) -> bool {
    |y: u32| y != x
}

/// A copy of `v` without the occurrences of `x`.
pub fn vec_without(v: &Vec<u32>, x: u32) -> (r: Vec<u32>)
    ensures
        r@ == without(v@, x),
{
    let mut r: Vec<u32> = Vec::new();
    let mut i: usize = 0;
    while i < v.len()
        invariant
            i <= v@.len(),
            r@ == without(v@.take(i as int), x),
        decreases v@.len() - i,
    {
        assert(v@.take(i as int + 1).drop_last() =~= v@.take(i as int));
        reveal_with_fuel(Seq::filter, 1);
        if v[i] != x {
            r.push(v[i]);
        }
        i = i + 1;
    }
    assert(v@.take(v@.len() as int) =~= v@);
    r
}

/// Whether `v` holds `x`.
pub fn vec_contains(v: &Vec<u32>, x: u32) -> (r: bool)
    ensures
        r == v@.contains(x),
{
    let mut i: usize = 0;
    while i < v.len()
        invariant
            i <= v@.len(),
            forall|j: int| 0 <= j < i ==> v@[j] != x,
        decreases v@.len() - i,
    {
        if v[i] == x {
            assert(v@[i as int] == x);
            return true;
        }
        i = i + 1;
    }
    false
}

/// Law: once a marker is dropped from a list (as taking it off an image
/// does), it is no longer listed, and every other marker is listed exactly
/// when it was before.
pub proof fn law_dropped_marker_is_unlisted(s: Seq<u32>, x: u32)
    ensures
        !without(s, x).contains(x),
        forall|y: u32| y != x ==> (without(s, x).contains(y) <==> s.contains(y)),
{
    let f = differs_from(x);
    assert forall|y: u32| without(s, x).contains(y) implies f(y) && s.contains(y) by {
        let i = choose|i: int| 0 <= i < without(s, x).len() && without(s, x)[i] == y;
        s.lemma_filter_pred(f, i);
        s.lemma_filter_contains_rev(f, y);
    }
    assert forall|y: u32| y != x && s.contains(y) implies without(s, x).contains(y) by {
        let i = choose|i: int| 0 <= i < s.len() && s[i] == y;
        s.lemma_filter_contains(f, i);
    }
}

/// Lemma: taking a key out and putting a value back is the same as
/// putting the value.
pub proof fn lemma_remove_insert<V>(m: Map<u32, V>, k: u32, v: V)
    ensures
        m.remove(k).insert(k, v) == m.insert(k, v),
{
    assert(m.remove(k).insert(k, v) =~= m.insert(k, v));
}

/// Lemma: the elements of a one-longer prefix are those of the prefix and
/// the next element.
pub proof fn lemma_take_to_set(s: Seq<u32>, i: int)
    requires
        0 <= i < s.len(),
    ensures
        s.take(i + 1).to_set() == s.take(i).to_set().insert(s[i]),
{
    assert(s.take(i + 1) =~= s.take(i).push(s[i]));
    s.take(i).lemma_push_to_set_commute(s[i]);
}

} // verus!
