use vstd::prelude::*;
use crate::error::{CoreError, CoreResult};
use crate::ids::{ImageId, MarkerId};
use crate::state::{MarkerStorage, MarkerStorageView, page_list, lemma_remove_insert_seq};
use crate::sorting::{stably_sorted, pair_index, sort_pairs_by_index};
use crate::collections::lemma_remove_insert;
use crate::dto::{MarkerDTO, MarkerGeometryDTO, MarkerStyleDTO};
use crate::state::present_markers;

verus! {

/// Where a marker sits on its page. Coordinates are percentages of the page
/// size, held as the bit patterns of the `f64` values (this library only
/// stores and compares them; the arithmetic on them happens in the caller).
#[derive(Debug, Clone, Copy, PartialEq, Eq, Structural)]
pub enum MarkerGeometry {
    Point { x: u64, y: u64 },
    Rectangle { x: u64, y: u64, width: u64, height: u64 },
}

/// How a marker's text is laid out.
#[derive(Debug, Clone, Copy, PartialEq, Eq, Structural)]
pub struct MarkerStyle {
    pub overlay_text: bool,
    pub horizontal: bool,
}

impl Default for MarkerStyle {
    fn default() -> (s: Self)
        ensures
            s == (MarkerStyle { overlay_text: false, horizontal: false }),
    {
        MarkerStyle { overlay_text: false, horizontal: false }
    }
}

impl View for MarkerStyle {
    type V = MarkerStyle;

    open spec fn view(&self) -> MarkerStyle {
        *self
    }
}

/// A translation note placed on a page.
#[derive(Debug)]
pub struct Marker {
    pub id: MarkerId,
    pub image_id: ImageId,
    pub geometry: MarkerGeometry,
    pub translation: String,
    pub style: MarkerStyle,
    pub image_index: u32,
}

/// The abstract value of a marker.
pub struct MarkerView {
    pub id: MarkerId,
    pub image_id: ImageId,
    pub geometry: MarkerGeometry,
    pub translation: Seq<char>,
    pub style: MarkerStyle,
    pub image_index: u32,
}

impl View for Marker {
    type V = MarkerView;

    open spec fn view(&self) -> MarkerView {
        MarkerView {
            id: self.id,
            image_id: self.image_id,
            geometry: self.geometry,
            translation: self.translation@,
            style: self.style,
            image_index: self.image_index,
        }
    }
}

impl Clone for Marker {
    fn clone(&self) -> (r: Self)
        ensures
            r@ == self@,
    {
        Marker {
            id: self.id,
            image_id: self.image_id,
            geometry: self.geometry,
            translation: self.translation.clone(),
            style: self.style,
            image_index: self.image_index,
        }
    }
}

impl Marker {
    /// A point marker with no text and the default style.
    pub fn new_point(id: MarkerId, image_id: ImageId, x: u64, y: u64, image_index: u32) -> (m: Self)
        ensures
            m@ == (MarkerView {
                id,
                image_id,
                geometry: MarkerGeometry::Point { x, y },
                translation: Seq::empty(),
                style: MarkerStyle { overlay_text: false, horizontal: false },
                image_index,
            }),
    {
        Marker {
            id,
            image_id,
            geometry: MarkerGeometry::Point { x, y },
            translation: String::new(),
            style: MarkerStyle::default(),
            image_index,
        }
    }

    /// A rectangle marker with no text and the default style.
    pub fn new_rectangle(id: MarkerId, image_id: ImageId, x: u64, y: u64, width: u64, height: u64, image_index: u32) -> (m:
        Self)
        ensures
            m@ == (MarkerView {
                id,
                image_id,
                geometry: MarkerGeometry::Rectangle { x, y, width, height },
                translation: Seq::empty(),
                style: MarkerStyle { overlay_text: false, horizontal: false },
                image_index,
            }),
    {
        Marker {
            id,
            image_id,
            geometry: MarkerGeometry::Rectangle { x, y, width, height },
            translation: String::new(),
            style: MarkerStyle::default(),
            image_index,
        }
    }

    /// A point marker with a translation and the default style.
    pub fn point_with_translation(
        id: MarkerId,
        image_id: ImageId,
        x: u64,
        y: u64,
        translation: String,
        image_index: u32,
    ) -> (m: Self)
        ensures
            m@ == (MarkerView {
                id,
                image_id,
                geometry: MarkerGeometry::Point { x, y },
                translation: translation@,
                style: MarkerStyle { overlay_text: false, horizontal: false },
                image_index,
            }),
    {
        Marker {
            id,
            image_id,
            geometry: MarkerGeometry::Point { x, y },
            translation,
            style: MarkerStyle::default(),
            image_index,
        }
    }

    /// A rectangle marker with a translation and the default style.
    pub fn rectangle_with_translation(
        id: MarkerId,
        image_id: ImageId,
        x: u64,
        y: u64,
        width: u64,
        height: u64,
        translation: String,
        image_index: u32,
    ) -> (m: Self)
        ensures
            m@ == (MarkerView {
                id,
                image_id,
                geometry: MarkerGeometry::Rectangle { x, y, width, height },
                translation: translation@,
                style: MarkerStyle { overlay_text: false, horizontal: false },
                image_index,
            }),
    {
        Marker {
            id,
            image_id,
            geometry: MarkerGeometry::Rectangle { x, y, width, height },
            translation,
            style: MarkerStyle::default(),
            image_index,
        }
    }
}

/// The store after the marker under `id`, if any, is replaced by `m`, with
/// the per-image index unchanged; and the answer `(found, image)`.
pub open spec fn marker_updated(
    old_s: MarkerStorageView,
    new_s: MarkerStorageView,
    id: MarkerId,
    m: MarkerView,
    r: CoreResult<(bool, Option<ImageId>)>,
) -> bool {
    &&& new_s.by_image == old_s.by_image
    &&& if old_s.markers.contains_key(id) {
        &&& new_s.markers == old_s.markers.insert(id, m)
        &&& r == Ok::<(bool, Option<ImageId>), CoreError>((true, Some(old_s.markers[id].image_id)))
    } else {
        &&& new_s.markers == old_s.markers
        &&& r == Ok::<(bool, Option<ImageId>), CoreError>((false, None))
    }
}

impl Marker {
    /// The marker as exchanged with the front end.
    pub fn to_dto(&self) -> (d: MarkerDTO)
        ensures
            d@ == self@,
    {
        MarkerDTO {
            id: self.id,
            image_id: self.image_id,
            geometry: match self.geometry {
                MarkerGeometry::Point { x, y } => MarkerGeometryDTO::Point { x, y },
                MarkerGeometry::Rectangle { x, y, width, height } => MarkerGeometryDTO::Rectangle {
                    x,
                    y,
                    width,
                    height,
                },
            },
            translation: self.translation.clone(),
            style: MarkerStyleDTO { overlay_text: self.style.overlay_text, horizontal: self.style.horizontal },
            image_index: self.image_index,
        }
    }

    /// The marker a front-end value describes.
    pub fn from_dto(dto: MarkerDTO) -> (m: Self)
        ensures
            m@ == dto@,
    {
        Marker {
            id: dto.id,
            image_id: dto.image_id,
            geometry: match dto.geometry {
                MarkerGeometryDTO::Point { x, y } => MarkerGeometry::Point { x, y },
                MarkerGeometryDTO::Rectangle { x, y, width, height } => MarkerGeometry::Rectangle {
                    x,
                    y,
                    width,
                    height,
                },
            },
            translation: dto.translation,
            style: MarkerStyle { overlay_text: dto.style.overlay_text, horizontal: dto.style.horizontal },
            image_index: dto.image_index,
        }
    }
}

/// Copies of the stored markers of a page, in the page's order.
pub fn get_image_markers_storage(storage: &MarkerStorage, image_id: ImageId) -> (r: CoreResult<Vec<Marker>>)
    ensures
        match r {
            Ok(v) => v@.map_values(|m: Marker| m@) == present_markers(
                page_list(storage@.by_image, image_id),
                storage@.markers,
            ),
            Err(_) => false,
        },
{
    let refs = storage.get_by_image(image_id);
    let mut out: Vec<Marker> = Vec::new();
    let mut i: usize = 0;
    while i < refs.len()
        invariant
            i <= refs@.len(),
            out@.len() == i,
            forall|j: int| 0 <= j < i ==> out@[j]@ == refs@[j]@,
        decreases refs@.len() - i,
    {
        out.push(refs[i].clone());
        i = i + 1;
    }
    assert(out@.map_values(|m: Marker| m@) =~= refs@.map_values(|m: &Marker| m@));
    Ok(out)
}

/// A copy of the stored marker, if any.
pub fn get_marker_storage(storage: &MarkerStorage, id: MarkerId) -> (r: CoreResult<Option<Marker>>)
    ensures
        match r {
            Ok(Some(m)) => storage@.markers.contains_key(id) && m@ == storage@.markers[id],
            Ok(None) => !storage@.markers.contains_key(id),
            Err(_) => false,
        },
{
    match storage.get(id) {
        Some(m) => Ok(Some(m.clone())),
        None => Ok(None),
    }
}

/// Moves a marker; answers whether it exists and, if so, its page.
pub fn update_marker_geometry_storage(storage: &mut MarkerStorage, id: MarkerId, geometry: MarkerGeometry) -> (r:
    CoreResult<(bool, Option<ImageId>)>)
    ensures
        marker_updated(
            old(storage)@,
            final(storage)@,
            id,
            MarkerView { geometry, ..old(storage)@.markers[id] },
            r,
        ),
{
    match storage.take(id) {
        Some(mut marker) => {
            let image_id = marker.image_id;
            marker.geometry = geometry;
            storage.put(id, marker);
            proof {
                lemma_remove_insert(old(storage)@.markers, id, storage@.markers[id]);
            }
            Ok((true, Some(image_id)))
        },
        None => {
            assert(storage@.markers =~= old(storage)@.markers);
            Ok((false, None))
        },
    }
}

/// Sets a marker's translation; answers whether it exists and, if so, its
/// page.
pub fn update_marker_translation_storage(storage: &mut MarkerStorage, id: MarkerId, translation: String) -> (r:
    CoreResult<(bool, Option<ImageId>)>)
    ensures
        marker_updated(
            old(storage)@,
            final(storage)@,
            id,
            MarkerView { translation: translation@, ..old(storage)@.markers[id] },
            r,
        ),
{
    match storage.take(id) {
        Some(mut marker) => {
            let image_id = marker.image_id;
            marker.translation = translation;
            storage.put(id, marker);
            proof {
                lemma_remove_insert(old(storage)@.markers, id, storage@.markers[id]);
            }
            Ok((true, Some(image_id)))
        },
        None => {
            assert(storage@.markers =~= old(storage)@.markers);
            Ok((false, None))
        },
    }
}

/// Sets a marker's style; answers whether it exists and, if so, its page.
pub fn update_marker_style_storage(storage: &mut MarkerStorage, id: MarkerId, style: MarkerStyle) -> (r:
    CoreResult<(bool, Option<ImageId>)>)
    ensures
        marker_updated(old(storage)@, final(storage)@, id, MarkerView { style, ..old(storage)@.markers[id] }, r),
{
    match storage.take(id) {
        Some(mut marker) => {
            let image_id = marker.image_id;
            marker.style = style;
            storage.put(id, marker);
            proof {
                lemma_remove_insert(old(storage)@.markers, id, storage@.markers[id]);
            }
            Ok((true, Some(image_id)))
        },
        None => {
            assert(storage@.markers =~= old(storage)@.markers);
            Ok((false, None))
        },
    }
}

/// Sets a marker's geometry, translation and style at once; answers whether
/// it exists and, if so, its page.
pub fn update_marker_storage(
    storage: &mut MarkerStorage,
    id: MarkerId,
    geometry: MarkerGeometry,
    translation: String,
    style: MarkerStyle,
) -> (r: CoreResult<(bool, Option<ImageId>)>)
    ensures
        marker_updated(
            old(storage)@,
            final(storage)@,
            id,
            MarkerView { geometry, translation: translation@, style, ..old(storage)@.markers[id] },
            r,
        ),
{
    match storage.take(id) {
        Some(mut marker) => {
            let image_id = marker.image_id;
            marker.geometry = geometry;
            marker.translation = translation;
            marker.style = style;
            storage.put(id, marker);
            proof {
                lemma_remove_insert(old(storage)@.markers, id, storage@.markers[id]);
            }
            Ok((true, Some(image_id)))
        },
        None => {
            assert(storage@.markers =~= old(storage)@.markers);
            Ok((false, None))
        },
    }
}

/// Deletes every marker and the per-page index.
pub fn clear_all_markers_storage(storage: &mut MarkerStorage) -> (r: CoreResult<()>)
    ensures
        r == Ok::<(), CoreError>(()),
        final(storage)@.markers == Map::<MarkerId, MarkerView>::empty(),
        final(storage)@.by_image == Map::<ImageId, Seq<MarkerId>>::empty(),
{
    storage.clear();
    Ok(())
}

/// The number of markers.
pub fn marker_count_storage(storage: &MarkerStorage) -> (r: CoreResult<usize>)
    ensures
        r == Ok::<usize, CoreError>(storage@.markers.dom().len() as usize),
{
    Ok(storage.len())
}

/// Whether there is a marker with this identifier.
pub fn marker_exists_storage(storage: &MarkerStorage, id: MarkerId) -> (r: CoreResult<bool>)
    ensures
        r == Ok::<bool, CoreError>(storage@.markers.contains_key(id)),
{
    Ok(storage.contains(id))
}

/// How often `k` occurs in `s`.
pub open spec fn occurrences(s: Seq<MarkerId>, k: MarkerId) -> nat
    decreases s.len(),
{
    if s.len() == 0 {
        0
    } else {
        occurrences(s.drop_last(), k) + if s.last() == k {
            1nat
        } else {
            0nat
        }
    }
}

/// The markers after each listed marker whose index is at least `target`
/// moves up one place per time it is listed.
pub open spec fn shifted_up(ms: Map<MarkerId, MarkerView>, ids: Seq<MarkerId>, target: u32) -> Map<
    MarkerId,
    MarkerView,
> {
    Map::new(
        |k: MarkerId| ms.contains_key(k),
        |k: MarkerId|
            if ms[k].image_index >= target {
                MarkerView { image_index: (ms[k].image_index + occurrences(ids, k)) as u32, ..ms[k] }
            } else {
                ms[k]
            },
    )
}

/// Puts a marker back at its own index on its page: the page's markers at
/// that index or above move up one place first, then the marker is stored
/// and appended to the page's list.
pub fn insert_marker_at_index(storage: &mut MarkerStorage, marker: Marker) -> (r: CoreResult<()>)
    requires
        forall|k: MarkerId|
            #![trigger old(storage)@.markers[k]]
            old(storage)@.markers.contains_key(k) && old(storage)@.markers[k].image_index >= marker.image_index
                ==> old(storage)@.markers[k].image_index + occurrences(
                page_list(old(storage)@.by_image, marker.image_id),
                k,
            ) <= u32::MAX,
    ensures
        r == Ok::<(), CoreError>(()),
        final(storage)@.markers == shifted_up(
            old(storage)@.markers,
            page_list(old(storage)@.by_image, marker.image_id),
            marker.image_index,
        ).insert(marker.id, marker@),
        final(storage)@.by_image == old(storage)@.by_image.insert(
            marker.image_id,
            page_list(old(storage)@.by_image, marker.image_id).push(marker.id),
        ),
{
    let image_id = marker.image_id;
    let target = marker.image_index;
    let ids: Vec<MarkerId> = match storage.image_list(image_id) {
        Some(v) => v.clone(),
        None => Vec::new(),
    };
    let ghost ms = old(storage)@.markers;
    assert(ids@ == page_list(old(storage)@.by_image, image_id));
    let mut i: usize = 0;
    while i < ids.len()
        invariant
            i <= ids@.len(),
            ids@ == page_list(old(storage)@.by_image, image_id),
            storage@.by_image == old(storage)@.by_image,
            storage@.markers == shifted_up(ms, ids@.take(i as int), target),
            forall|k: MarkerId|
                #![trigger ms[k]]
                ms.contains_key(k) && ms[k].image_index >= target ==> ms[k].image_index + occurrences(ids@, k)
                    <= u32::MAX,
        decreases ids@.len() - i,
    {
        let k = ids[i];
        proof {
            assert(ids@.take(i as int + 1).drop_last() =~= ids@.take(i as int));
            lemma_occurrences_prefix(ids@, i as int + 1, k);
        }
        match storage.take(k) {
            Some(mut m) => {
                if m.image_index >= target {
                    m.image_index = m.image_index + 1;
                }
                storage.put(k, m);
            },
            None => {},
        }
        proof {
            lemma_remove_insert(shifted_up(ms, ids@.take(i as int), target), k, storage@.markers[k]);
            assert(storage@.markers =~= shifted_up(ms, ids@.take(i as int + 1), target));
        }
        i = i + 1;
    }
    assert(ids@.take(ids@.len() as int) =~= ids@);
    storage.insert_with_image(marker)?;
    Ok(())
}

/// Lemma: a prefix has no more occurrences than the whole sequence.
pub proof fn lemma_occurrences_prefix(s: Seq<MarkerId>, n: int, k: MarkerId)
    requires
        0 <= n <= s.len(),
    ensures
        occurrences(s.take(n), k) <= occurrences(s, k),
    decreases s.len() - n,
{
    if n < s.len() {
        lemma_occurrences_prefix(s, n + 1, k);
        assert(s.take(n + 1).drop_last() =~= s.take(n));
    } else {
        assert(s.take(n) =~= s);
    }
}

/// The `(identifier, index)` pairs of the listed markers that are stored,
/// in list order.
pub open spec fn index_pairs(ids: Seq<MarkerId>, ms: Map<MarkerId, MarkerView>) -> Seq<(MarkerId, u32)>
    decreases ids.len(),
{
    if ids.len() == 0 {
        Seq::empty()
    } else {
        let rest = index_pairs(ids.drop_last(), ms);
        if ms.contains_key(ids.last()) {
            rest.push((ids.last(), ms[ids.last()].image_index))
        } else {
            rest
        }
    }
}

/// The markers after those named in `order` get the indices 1, 2, 3, ...
/// in that order (for a repeated name, the later position wins).
pub open spec fn numbered_in_order(ms: Map<MarkerId, MarkerView>, order: Seq<(MarkerId, u32)>) -> Map<
    MarkerId,
    MarkerView,
>
    decreases order.len(),
{
    if order.len() == 0 {
        ms
    } else {
        let prev = numbered_in_order(ms, order.drop_last());
        let k = order.last().0;
        if prev.contains_key(k) {
            prev.insert(k, MarkerView { image_index: order.len() as u32, ..prev[k] })
        } else {
            prev
        }
    }
}

/// Numbers a page's markers 1, 2, 3, ... in the order of their current
/// indices (a stable sort: equal indices keep their list order).
pub fn renumber_image_markers(storage: &mut MarkerStorage, image_id: ImageId) -> (r: CoreResult<()>)
    ensures
        r == Ok::<(), CoreError>(()),
        final(storage)@.by_image == old(storage)@.by_image,
        exists|sorted: Seq<(MarkerId, u32)>|
            stably_sorted(
                index_pairs(page_list(old(storage)@.by_image, image_id), old(storage)@.markers),
                sorted,
                |p: (MarkerId, u32)| pair_index(p),
            ) && final(storage)@.markers == numbered_in_order(old(storage)@.markers, sorted),
{
    let ids: Vec<MarkerId> = match storage.image_list(image_id) {
        Some(v) => v.clone(),
        None => Vec::new(),
    };
    let ghost ms = old(storage)@.markers;
    let mut pairs: Vec<(MarkerId, u32)> = Vec::new();
    let mut i: usize = 0;
    while i < ids.len()
        invariant
            i <= ids@.len(),
            storage@ == old(storage)@,
            ms == old(storage)@.markers,
            pairs@ == index_pairs(ids@.take(i as int), ms),
        decreases ids@.len() - i,
    {
        assert(ids@.take(i as int + 1).drop_last() =~= ids@.take(i as int));
        match storage.get(ids[i]) {
            Some(m) => pairs.push((ids[i], m.image_index)),
            None => {},
        }
        i = i + 1;
    }
    assert(ids@.take(ids@.len() as int) =~= ids@);
    let ghost unsorted = pairs@;
    sort_pairs_by_index(&mut pairs);
    let ghost sorted = pairs@;
    let mut j: usize = 0;
    while j < pairs.len()
        invariant
            j <= pairs@.len(),
            pairs@ == sorted,
            storage@.by_image == old(storage)@.by_image,
            storage@.markers == numbered_in_order(ms, sorted.take(j as int)),
        decreases pairs@.len() - j,
    {
        let k = pairs[j].0;
        proof {
            assert(sorted.take(j as int + 1).drop_last() =~= sorted.take(j as int));
        }
        match storage.take(k) {
            Some(mut m) => {
                m.image_index = (j + 1) as u32;
                storage.put(k, m);
                proof {
                    lemma_remove_insert(numbered_in_order(ms, sorted.take(j as int)), k, storage@.markers[k]);
                }
            },
            None => {
                assert(storage@.markers =~= numbered_in_order(ms, sorted.take(j as int)));
            },
        }
        assert(storage@.markers =~= numbered_in_order(ms, sorted.take(j as int + 1)));
        j = j + 1;
    }
    assert(sorted.take(sorted.len() as int) =~= sorted);
    Ok(())
}

} // verus!
