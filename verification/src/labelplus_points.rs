use vstd::prelude::*;
use crate::strmap::{StrMap, enumerates_str};
use crate::labelplus::{LabelplusData, LabelplusMarker, LabelplusPage, LpMarkerView, LpParse, lp_views, name_views, sections_map, type_views};

verus! {

/// A marker with its point set from its coordinate texts through `t`: each
/// coordinate whose text `t` holds takes the value there, the others stay.
pub open spec fn point_set(m: LpMarkerView, t: Map<Seq<char>, u64>) -> LpMarkerView {
    LpMarkerView {
        px: if t.contains_key(m.x) {
            t[m.x]
        } else {
            m.px
        },
        py: if t.contains_key(m.y) {
            t[m.y]
        } else {
            m.py
        },
        ..m
    }
}

/// The markers of a page with their points set through `t`.
pub open spec fn with_points(ms: Seq<LpMarkerView>, t: Map<Seq<char>, u64>) -> Seq<LpMarkerView> {
    ms.map_values(|m: LpMarkerView| point_set(m, t))
}

/// The pages of `m` whose names are in `done` with their points set
/// through `t`, the others as they are.
pub open spec fn points_set_for(
    m: Map<Seq<char>, Seq<LpMarkerView>>,
    done: Set<Seq<char>>,
    t: Map<Seq<char>, u64>,
) -> Map<Seq<char>, Seq<LpMarkerView>> {
    Map::new(
        |k: Seq<char>| m.contains_key(k),
        |k: Seq<char>|
            if done.contains(k) {
                with_points(m[k], t)
            } else {
                m[k]
            },
    )
}

/// Whether `d` holds the parse `p` with every marker's point set through
/// `t`.
pub open spec fn describes_with_points(d: LabelplusData, p: LpParse, t: Map<Seq<char>, u64>) -> bool {
    &&& type_views(d.marker_types@) == p.types
    &&& d.markers_by_image.wf()
    &&& d.markers_by_image.map() == sections_map(p.sections).map_values(
        |ms: Seq<LpMarkerView>| with_points(ms, t),
    )
    &&& name_views(d.image_order@) == p.order
}

fn lookup_point(t: &StrMap<u64>, text: &String, current: u64) -> (r: u64)
    requires
        t.wf(),
    ensures
        r == (if t.map().contains_key(text@) {
            t.map()[text@]
        } else {
            current
        }),
{
    match t.get(text.as_str()) {
        Some(v) => *v,
        None => current,
    }
}

fn page_with_points(page: &LabelplusPage, t: &StrMap<u64>) -> (r: LabelplusPage)
    requires
        t.wf(),
    ensures
        r@ == with_points(page@, t.map()),
{
    let mut out: Vec<LabelplusMarker> = Vec::new();
    let mut i: usize = 0;
    while i < page.markers.len()
        invariant
            t.wf(),
            i <= page.markers@.len(),
            out@.len() == i,
            lp_views(out@) == with_points(lp_views(page.markers@), t.map()).take(i as int),
        decreases page.markers@.len() - i,
    {
        let m = &page.markers[i];
        let px = lookup_point(t, &m.x, m.px);
        let py = lookup_point(t, &m.y, m.py);
        let nm = LabelplusMarker {
            image_index: m.image_index,
            x: m.x.clone(),
            y: m.y.clone(),
            type_id: m.type_id,
            translation: m.translation.clone(),
            px,
            py,
        };
        assert(nm@ == point_set(m@, t.map()));
        out.push(nm);
        assert(lp_views(page.markers@)[i as int] == m@);
        assert(out@[i as int]@ == point_set(m@, t.map()));
        assert(lp_views(out@) =~= with_points(lp_views(page.markers@), t.map()).take(i as int + 1));
        i = i + 1;
    }
    assert(with_points(lp_views(page.markers@), t.map()).take(page.markers@.len() as int) =~= with_points(
        lp_views(page.markers@),
        t.map(),
    ));
    LabelplusPage { markers: out }
}

impl LabelplusData {
    /// Sets the point of every marker from its coordinate texts through
    /// `table` (text to the percent of the page, as `f64` bits); the pages,
    /// their order, the types and everything else stay.
    pub fn set_points(&mut self, table: &StrMap<u64>)
        requires
            old(self).markers_by_image.wf(),
            table.wf(),
        ensures
            final(self).markers_by_image.wf(),
            final(self).markers_by_image.keys() == old(self).markers_by_image.keys(),
            final(self).markers_by_image.map() == old(self).markers_by_image.map().map_values(
                |ms: Seq<LpMarkerView>| with_points(ms, table.map()),
            ),
            type_views(final(self).marker_types@) == type_views(old(self).marker_types@),
            name_views(final(self).image_order@) == name_views(old(self).image_order@),
    {
        let ghost m0 = self.markers_by_image.map();
        let ghost k0 = self.markers_by_image.keys();
        let refs = self.markers_by_image.key_refs();
        let mut keys: Vec<String> = Vec::new();
        let mut j: usize = 0;
        while j < refs.len()
            invariant
                j <= refs@.len(),
                keys@.len() == j,
                forall|x: int| 0 <= x < j ==> keys@[x]@ == refs@[x]@,
            decreases refs@.len() - j,
        {
            keys.push(refs[j].clone());
            j = j + 1;
        }
        let ghost kv = keys@.map_values(|k: String| k@);
        assert(kv =~= refs@.map_values(|k: &String| k@));
        assert(enumerates_str(kv, m0.dom()));
        let mut i: usize = 0;
        while i < keys.len()
            invariant
                table.wf(),
                self.markers_by_image.wf(),
                self.markers_by_image.keys() == k0,
                self.marker_types == old(self).marker_types,
                self.image_order == old(self).image_order,
                kv == keys@.map_values(|k: String| k@),
                enumerates_str(kv, m0.dom()),
                i <= keys@.len(),
                self.markers_by_image.map() == points_set_for(m0, kv.take(i as int).to_set(), table.map()),
            decreases keys@.len() - i,
        {
            let ghost k = kv[i as int];
            assert(kv.contains(k));
            assert(m0.dom().contains(k));
            assert(!kv.take(i as int).contains(k)) by {
                if kv.take(i as int).contains(k) {
                    let x = choose|x: int| 0 <= x < i && kv.take(i as int)[x] == k;
                    assert(kv[x] == kv[i as int]);
                }
            }
            let page = match self.markers_by_image.get(keys[i].as_str()) {
                Some(p) => page_with_points(p, table),
                None => {
                    assert(false);
                    LabelplusPage { markers: Vec::new() }
                },
            };
            proof {
                assert(self.markers_by_image.map().contains_key(k));
                self.markers_by_image.lemma_map_entries();
                assert(k0.contains(k));
            }
            self.markers_by_image.insert(keys[i].clone(), page);
            proof {
                assert(kv.take(i as int + 1).to_set() =~= kv.take(i as int).to_set().insert(k)) by {
                    assert(kv.take(i as int + 1) =~= kv.take(i as int).push(k));
                    kv.take(i as int).lemma_push_to_set_commute(k);
                }
                assert(self.markers_by_image.map() =~= points_set_for(
                    m0,
                    kv.take(i as int + 1).to_set(),
                    table.map(),
                ));
            }
            i = i + 1;
        }
        proof {
            assert(kv.take(keys@.len() as int) =~= kv);
            assert(self.markers_by_image.map() =~= m0.map_values(|ms: Seq<LpMarkerView>| with_points(ms, table.map())))
                by {
                assert forall|k: Seq<char>| #[trigger] m0.contains_key(k) implies kv.to_set().contains(k) by {
                    assert(kv.contains(k));
                }
            }
        }
    }
}

} // verus!
