use vstd::prelude::*;
use crate::error::{CoreError, CoreResult};
use crate::ids::{ImageId, MarkerId};
use crate::marker::{Marker, MarkerGeometry, MarkerStyle, MarkerView};
use crate::state::{MarkerStorage, MarkerStorageView, ImageStorage, ImageStorageView, page_list, present_markers, list_without};
use crate::image::{ImageView, image_updated, add_marker_to_image_storage, remove_marker_from_image_storage, clear_image_markers_storage};
use crate::project::push_unique;
use crate::collections::{without, lemma_take_to_set};
use crate::marker::{index_pairs, numbered_in_order, renumber_image_markers};
use crate::sorting::{stably_sorted, pair_index};
use crate::bunny_cache::{BunnyCacheStorage, BunnyCacheView, clear_bunny_cache_storage};
use crate::ids::IdGenerator;
use crate::project::opt_str_view;
use crate::events::{DomainEvent, EventView, Position, RectGeometry, event_views};
use crate::collections::lemma_remove_insert;

verus! {

/// The marker operations that keep the history informed: each change that
/// can be undone appends the event that describes it.
pub struct MarkerService;

/// The point of a point marker.
pub open spec fn point_of(g: MarkerGeometry) -> Option<Position> {
    match g {
        MarkerGeometry::Point { x, y } => Some((x, y)),
        _ => None,
    }
}

/// The geometry of a rectangle marker.
pub open spec fn rect_of(g: MarkerGeometry) -> Option<RectGeometry> {
    match g {
        MarkerGeometry::Rectangle { x, y, width, height } => Some((x, y, width, height)),
        _ => None,
    }
}

/// The top-left corner (or the point) of a marker.
pub open spec fn anchor_of(g: MarkerGeometry) -> Position {
    match g {
        MarkerGeometry::Point { x, y } => (x, y),
        MarkerGeometry::Rectangle { x, y, .. } => (x, y),
    }
}

/// The store after marker `id` becomes `m`, the per-page index unchanged.
pub open spec fn with_marker(s: MarkerStorageView, id: MarkerId, m: MarkerView) -> MarkerStorageView {
    MarkerStorageView { markers: s.markers.insert(id, m), by_image: s.by_image }
}

/// Either the change happened and `ev` was announced, or (when `applies`
/// is false) nothing changed; `r` says which.
pub open spec fn changed_or_not(
    applies: bool,
    old_s: MarkerStorageView,
    new_s: MarkerStorageView,
    changed: MarkerStorageView,
    old_e: Seq<EventView>,
    new_e: Seq<EventView>,
    ev: EventView,
    r: CoreResult<bool>,
) -> bool {
    if applies {
        &&& new_s == changed
        &&& new_e == old_e.push(ev)
        &&& r == Ok::<bool, CoreError>(true)
    } else {
        &&& new_s == old_s
        &&& new_e == old_e
        &&& r == Ok::<bool, CoreError>(false)
    }
}

impl MarkerService {
    /// Moves a point marker; rectangles and unknown markers are left alone
    /// (`Ok(false)`).
    pub fn update_point_marker_position_with_undo(
        &self,
        markers: &mut MarkerStorage,
        events: &mut Vec<DomainEvent>,
        id: MarkerId,
        x: u64,
        y: u64,
    ) -> (r: CoreResult<bool>)
        ensures
            changed_or_not(
                old(markers)@.markers.contains_key(id) && point_of(old(markers)@.markers[id].geometry) is Some,
                old(markers)@,
                final(markers)@,
                with_marker(
                    old(markers)@,
                    id,
                    MarkerView { geometry: MarkerGeometry::Point { x, y }, ..old(markers)@.markers[id] },
                ),
                event_views(old(events)@),
                event_views(final(events)@),
                EventView::PointMarkerPositionUpdated {
                    id,
                    old_pos: anchor_of(old(markers)@.markers[id].geometry),
                    new_pos: (x, y),
                },
                r,
            ),
    {
        match markers.take(id) {
            Some(mut marker) => {
                match marker.geometry {
                    MarkerGeometry::Point { x: old_x, y: old_y } => {
                        marker.geometry = MarkerGeometry::Point { x, y };
                        markers.put(id, marker);
                        proof {
                            lemma_remove_insert(old(markers)@.markers, id, markers@.markers[id]);
                        }
                        events.push(
                            DomainEvent::PointMarkerPositionUpdated { id, old_pos: (old_x, old_y), new_pos: (x, y) },
                        );
                        assert(event_views(events@) =~= event_views(old(events)@).push(events@.last()@));
                        Ok(true)
                    },
                    _ => {
                        markers.put(id, marker);
                        proof {
                            lemma_remove_insert(old(markers)@.markers, id, markers@.markers[id]);
                            assert(markers@.markers =~= old(markers)@.markers);
                        }
                        Ok(false)
                    },
                }
            },
            None => {
                assert(markers@.markers =~= old(markers)@.markers);
                Ok(false)
            },
        }
    }
    /// Reshapes a rectangle marker; points and unknown markers are left
    /// alone (`Ok(false)`).
    pub fn update_rectangle_marker_geometry_with_undo(
        &self,
        markers: &mut MarkerStorage,
        events: &mut Vec<DomainEvent>,
        id: MarkerId,
        x: u64,
        y: u64,
        width: u64,
        height: u64,
    ) -> (r: CoreResult<bool>)
        ensures
            changed_or_not(
                old(markers)@.markers.contains_key(id) && rect_of(old(markers)@.markers[id].geometry) is Some,
                old(markers)@,
                final(markers)@,
                with_marker(
                    old(markers)@,
                    id,
                    MarkerView {
                        geometry: MarkerGeometry::Rectangle { x, y, width, height },
                        ..old(markers)@.markers[id]
                    },
                ),
                event_views(old(events)@),
                event_views(final(events)@),
                EventView::RectangleGeometryUpdated {
                    id,
                    old_geometry: rect_of(old(markers)@.markers[id].geometry)->0,
                    new_geometry: (x, y, width, height),
                },
                r,
            ),
    {
        match markers.take(id) {
            Some(mut marker) => {
                match marker.geometry {
                    MarkerGeometry::Rectangle { x: ox, y: oy, width: ow, height: oh } => {
                        marker.geometry = MarkerGeometry::Rectangle { x, y, width, height };
                        markers.put(id, marker);
                        proof {
                            lemma_remove_insert(old(markers)@.markers, id, markers@.markers[id]);
                        }
                        events.push(
                            DomainEvent::RectangleGeometryUpdated {
                                id,
                                old_geometry: (ox, oy, ow, oh),
                                new_geometry: (x, y, width, height),
                            },
                        );
                        assert(event_views(events@) =~= event_views(old(events)@).push(events@.last()@));
                        Ok(true)
                    },
                    _ => {
                        markers.put(id, marker);
                        proof {
                            lemma_remove_insert(old(markers)@.markers, id, markers@.markers[id]);
                            assert(markers@.markers =~= old(markers)@.markers);
                        }
                        Ok(false)
                    },
                }
            },
            None => {
                assert(markers@.markers =~= old(markers)@.markers);
                Ok(false)
            },
        }
    }

    /// Sets a marker's translation; `Ok(false)` for an unknown marker.
    pub fn update_marker_translation_with_undo(
        &self,
        markers: &mut MarkerStorage,
        events: &mut Vec<DomainEvent>,
        id: MarkerId,
        translation: String,
    ) -> (r: CoreResult<bool>)
        ensures
            changed_or_not(
                old(markers)@.markers.contains_key(id),
                old(markers)@,
                final(markers)@,
                with_marker(old(markers)@, id, MarkerView { translation: translation@, ..old(markers)@.markers[id] }),
                event_views(old(events)@),
                event_views(final(events)@),
                EventView::MarkerTranslationUpdated {
                    id,
                    old_trans: old(markers)@.markers[id].translation,
                    new_trans: translation@,
                },
                r,
            ),
    {
        match markers.take(id) {
            Some(mut marker) => {
                let old_trans = marker.translation.clone();
                let new_trans = translation.clone();
                marker.translation = translation;
                markers.put(id, marker);
                proof {
                    lemma_remove_insert(old(markers)@.markers, id, markers@.markers[id]);
                }
                events.push(DomainEvent::MarkerTranslationUpdated { id, old_trans, new_trans });
                assert(event_views(events@) =~= event_views(old(events)@).push(events@.last()@));
                Ok(true)
            },
            None => {
                assert(markers@.markers =~= old(markers)@.markers);
                Ok(false)
            },
        }
    }

    /// Sets a marker's style; `Ok(false)` for an unknown marker.
    pub fn update_marker_style_with_undo(
        &self,
        markers: &mut MarkerStorage,
        events: &mut Vec<DomainEvent>,
        id: MarkerId,
        style: MarkerStyle,
    ) -> (r: CoreResult<bool>)
        ensures
            changed_or_not(
                old(markers)@.markers.contains_key(id),
                old(markers)@,
                final(markers)@,
                with_marker(old(markers)@, id, MarkerView { style, ..old(markers)@.markers[id] }),
                event_views(old(events)@),
                event_views(final(events)@),
                EventView::MarkerStyleUpdated { id, old_style: old(markers)@.markers[id].style, new_style: style },
                r,
            ),
    {
        match markers.take(id) {
            Some(mut marker) => {
                let old_style = marker.style;
                marker.style = style;
                markers.put(id, marker);
                proof {
                    lemma_remove_insert(old(markers)@.markers, id, markers@.markers[id]);
                }
                events.push(DomainEvent::MarkerStyleUpdated { id, old_style, new_style: style });
                assert(event_views(events@) =~= event_views(old(events)@).push(events@.last()@));
                Ok(true)
            },
            None => {
                assert(markers@.markers =~= old(markers)@.markers);
                Ok(false)
            },
        }
    }

    /// Moves a point marker and sets its translation and style at once;
    /// rectangles and unknown markers are left alone (`Ok(false)`).
    pub fn update_point_marker_with_undo(
        &self,
        markers: &mut MarkerStorage,
        events: &mut Vec<DomainEvent>,
        id: MarkerId,
        x: u64,
        y: u64,
        translation: String,
        style: MarkerStyle,
    ) -> (r: CoreResult<bool>)
        ensures
            changed_or_not(
                old(markers)@.markers.contains_key(id) && point_of(old(markers)@.markers[id].geometry) is Some,
                old(markers)@,
                final(markers)@,
                with_marker(
                    old(markers)@,
                    id,
                    MarkerView {
                        geometry: MarkerGeometry::Point { x, y },
                        translation: translation@,
                        style,
                        ..old(markers)@.markers[id]
                    },
                ),
                event_views(old(events)@),
                event_views(final(events)@),
                EventView::MarkerFullUpdated {
                    id,
                    old_position: anchor_of(old(markers)@.markers[id].geometry),
                    new_position: (x, y),
                    old_translation: old(markers)@.markers[id].translation,
                    new_translation: translation@,
                    old_style: old(markers)@.markers[id].style,
                    new_style: style,
                },
                r,
            ),
    {
        match markers.take(id) {
            Some(mut marker) => {
                match marker.geometry {
                    MarkerGeometry::Point { x: ox, y: oy } => {
                        let old_translation = marker.translation.clone();
                        let old_style = marker.style;
                        let new_translation = translation.clone();
                        marker.geometry = MarkerGeometry::Point { x, y };
                        marker.translation = translation;
                        marker.style = style;
                        markers.put(id, marker);
                        proof {
                            lemma_remove_insert(old(markers)@.markers, id, markers@.markers[id]);
                        }
                        events.push(
                            DomainEvent::MarkerFullUpdated {
                                id,
                                old_position: (ox, oy),
                                new_position: (x, y),
                                old_translation,
                                new_translation,
                                old_style,
                                new_style: style,
                            },
                        );
                        assert(event_views(events@) =~= event_views(old(events)@).push(events@.last()@));
                        Ok(true)
                    },
                    _ => {
                        markers.put(id, marker);
                        proof {
                            lemma_remove_insert(old(markers)@.markers, id, markers@.markers[id]);
                            assert(markers@.markers =~= old(markers)@.markers);
                        }
                        Ok(false)
                    },
                }
            },
            None => {
                assert(markers@.markers =~= old(markers)@.markers);
                Ok(false)
            },
        }
    }

    /// Reshapes a rectangle marker and sets its translation and style at
    /// once; points and unknown markers are left alone (`Ok(false)`).
    pub fn update_rectangle_marker_with_undo(
        &self,
        markers: &mut MarkerStorage,
        events: &mut Vec<DomainEvent>,
        id: MarkerId,
        x: u64,
        y: u64,
        width: u64,
        height: u64,
        translation: String,
        style: MarkerStyle,
    ) -> (r: CoreResult<bool>)
        ensures
            changed_or_not(
                old(markers)@.markers.contains_key(id) && rect_of(old(markers)@.markers[id].geometry) is Some,
                old(markers)@,
                final(markers)@,
                with_marker(
                    old(markers)@,
                    id,
                    MarkerView {
                        geometry: MarkerGeometry::Rectangle { x, y, width, height },
                        translation: translation@,
                        style,
                        ..old(markers)@.markers[id]
                    },
                ),
                event_views(old(events)@),
                event_views(final(events)@),
                EventView::MarkerFullUpdated {
                    id,
                    old_position: anchor_of(old(markers)@.markers[id].geometry),
                    new_position: (x, y),
                    old_translation: old(markers)@.markers[id].translation,
                    new_translation: translation@,
                    old_style: old(markers)@.markers[id].style,
                    new_style: style,
                },
                r,
            ),
    {
        match markers.take(id) {
            Some(mut marker) => {
                match marker.geometry {
                    MarkerGeometry::Rectangle { x: ox, y: oy, .. } => {
                        let old_translation = marker.translation.clone();
                        let old_style = marker.style;
                        let new_translation = translation.clone();
                        marker.geometry = MarkerGeometry::Rectangle { x, y, width, height };
                        marker.translation = translation;
                        marker.style = style;
                        markers.put(id, marker);
                        proof {
                            lemma_remove_insert(old(markers)@.markers, id, markers@.markers[id]);
                        }
                        events.push(
                            DomainEvent::MarkerFullUpdated {
                                id,
                                old_position: (ox, oy),
                                new_position: (x, y),
                                old_translation,
                                new_translation,
                                old_style,
                                new_style: style,
                            },
                        );
                        assert(event_views(events@) =~= event_views(old(events)@).push(events@.last()@));
                        Ok(true)
                    },
                    _ => {
                        markers.put(id, marker);
                        proof {
                            lemma_remove_insert(old(markers)@.markers, id, markers@.markers[id]);
                            assert(markers@.markers =~= old(markers)@.markers);
                        }
                        Ok(false)
                    },
                }
            },
            None => {
                assert(markers@.markers =~= old(markers)@.markers);
                Ok(false)
            },
        }
    }
}

/// One marker's index after marker `id` moves from `old_index` to
/// `new_index`: the moved marker takes the new index, and those in between
/// close the gap.
pub open spec fn order_shifted(m: MarkerView, id: MarkerId, old_index: u32, new_index: u32) -> MarkerView {
    if m.id == id {
        MarkerView { image_index: new_index, ..m }
    } else if old_index < new_index {
        if m.image_index > old_index && m.image_index <= new_index {
            MarkerView { image_index: (m.image_index - 1) as u32, ..m }
        } else {
            m
        }
    } else {
        if m.image_index >= new_index && m.image_index < old_index {
            MarkerView { image_index: (m.image_index + 1) as u32, ..m }
        } else {
            m
        }
    }
}

/// The markers after `order_shifted` is applied to each listed marker, in
/// list order.
pub open spec fn moved_in_order(
    ms: Map<MarkerId, MarkerView>,
    ids: Seq<MarkerId>,
    id: MarkerId,
    old_index: u32,
    new_index: u32,
) -> Map<MarkerId, MarkerView>
    decreases ids.len(),
{
    if ids.len() == 0 {
        ms
    } else {
        let prev = moved_in_order(ms, ids.drop_last(), id, old_index, new_index);
        let k = ids.last();
        if prev.contains_key(k) {
            prev.insert(k, order_shifted(prev[k], id, old_index, new_index))
        } else {
            prev
        }
    }
}

/// The markers of a page renumbered 1, 2, 3, ... by a stable sort on their
/// indices.
pub open spec fn renumbered(s: MarkerStorageView, image_id: ImageId, result: Map<MarkerId, MarkerView>) -> bool {
    exists|sorted: Seq<(MarkerId, u32)>|
        stably_sorted(index_pairs(page_list(s.by_image, image_id), s.markers), sorted, |p: (MarkerId, u32)| pair_index(p))
            && result == numbered_in_order(s.markers, sorted)
}

/// The stored markers named by `ids`, in list order, each once (at its
/// first mention).
pub open spec fn first_present(ids: Seq<MarkerId>, ms: Map<MarkerId, MarkerView>) -> Seq<MarkerView>
    decreases ids.len(),
{
    if ids.len() == 0 {
        Seq::empty()
    } else {
        let rest = first_present(ids.drop_last(), ms);
        let k = ids.last();
        if ms.contains_key(k) && !ids.drop_last().contains(k) {
            rest.push(ms[k])
        } else {
            rest
        }
    }
}

/// The marker store after each marker is stored and appended to its page's
/// list, in order.
pub open spec fn inserted_all(s: MarkerStorageView, ms: Seq<MarkerView>) -> MarkerStorageView
    decreases ms.len(),
{
    if ms.len() == 0 {
        s
    } else {
        let prev = inserted_all(s, ms.drop_last());
        let m = ms.last();
        MarkerStorageView {
            markers: prev.markers.insert(m.id, m),
            by_image: prev.by_image.insert(m.image_id, page_list(prev.by_image, m.image_id).push(m.id)),
        }
    }
}

/// The image store after each `(image, marker)` entry is recorded in the
/// image's marker list (unless already listed), in order.
pub open spec fn images_with_entries(s: ImageStorageView, entries: Seq<(ImageId, MarkerId)>) -> ImageStorageView
    decreases entries.len(),
{
    if entries.len() == 0 {
        s
    } else {
        let prev = images_with_entries(s, entries.drop_last());
        let (image_id, marker_id) = entries.last();
        if prev.images.contains_key(image_id) {
            ImageStorageView {
                images: prev.images.insert(
                    image_id,
                    ImageView { marker_ids: push_unique(prev.images[image_id].marker_ids, marker_id), ..prev.images[image_id] },
                ),
                ..prev
            }
        } else {
            prev
        }
    }
}

/// Each marker paired with its own page.
pub open spec fn own_pages(ms: Seq<MarkerView>) -> Seq<(ImageId, MarkerId)> {
    ms.map_values(|m: MarkerView| (m.image_id, m.id))
}

/// Each marker paired with the page `image_id`.
pub open spec fn on_page(image_id: ImageId, ms: Seq<MarkerView>) -> Seq<(ImageId, MarkerId)> {
    ms.map_values(|m: MarkerView| (image_id, m.id))
}

/// The largest index among some markers (0 for none).
pub open spec fn max_index(ms: Seq<MarkerView>) -> u32
    decreases ms.len(),
{
    if ms.len() == 0 {
        0
    } else {
        let rest = max_index(ms.drop_last());
        if ms.last().image_index > rest {
            ms.last().image_index
        } else {
            rest
        }
    }
}

/// The index a new marker gets on a page: one past the largest, or 1.
pub open spec fn next_index(ms: Seq<MarkerView>) -> int {
    if ms.len() == 0 {
        1
    } else {
        max_index(ms) + 1
    }
}

impl MarkerService {
    /// Moves a marker to another place in its page's order, shifting those
    /// in between; `Ok(false)` for an unknown marker, `Ok(true)` with no
    /// change when it is already there.
    pub fn move_marker_order_with_undo(
        &self,
        markers: &mut MarkerStorage,
        events: &mut Vec<DomainEvent>,
        id: MarkerId,
        new_index: u32,
    ) -> (r: CoreResult<bool>)
        ensures
            !old(markers)@.markers.contains_key(id) ==> {
                &&& r == Ok::<bool, CoreError>(false)
                &&& final(markers)@ == old(markers)@
                &&& final(events)@ == old(events)@
            },
            old(markers)@.markers.contains_key(id) ==> {
                let m = old(markers)@.markers[id];
                &&& r == Ok::<bool, CoreError>(true)
                &&& final(markers)@.by_image == old(markers)@.by_image
                &&& m.image_index == new_index ==> {
                    &&& final(markers)@ == old(markers)@
                    &&& final(events)@ == old(events)@
                }
                &&& m.image_index != new_index ==> {
                    &&& final(markers)@.markers == moved_in_order(
                        old(markers)@.markers,
                        page_list(old(markers)@.by_image, m.image_id),
                        id,
                        m.image_index,
                        new_index,
                    )
                    &&& event_views(final(events)@) == event_views(old(events)@).push(
                        EventView::MarkerOrderMoved {
                            id,
                            image_id: m.image_id,
                            old_index: m.image_index,
                            new_index,
                        },
                    )
                }
            },
    {
        let (image_id, old_index) = match markers.get(id) {
            Some(m) => (m.image_id, m.image_index),
            None => {
                return Ok(false);
            },
        };
        if old_index == new_index {
            return Ok(true);
        }
        let ids: Vec<MarkerId> = match markers.image_list(image_id) {
            Some(v) => v.clone(),
            None => Vec::new(),
        };
        let ghost ms = old(markers)@.markers;
        let mut i: usize = 0;
        while i < ids.len()
            invariant
                i <= ids@.len(),
                markers@.by_image == old(markers)@.by_image,
                markers@.markers == moved_in_order(ms, ids@.take(i as int), id, old_index, new_index),
            decreases ids@.len() - i,
        {
            let k = ids[i];
            proof {
                assert(ids@.take(i as int + 1).drop_last() =~= ids@.take(i as int));
            }
            match markers.take(k) {
                Some(mut m) => {
                    if m.id == id {
                        m.image_index = new_index;
                    } else if old_index < new_index {
                        if m.image_index > old_index && m.image_index <= new_index {
                            m.image_index = m.image_index - 1;
                        }
                    } else {
                        if m.image_index >= new_index && m.image_index < old_index {
                            m.image_index = m.image_index + 1;
                        }
                    }
                    markers.put(k, m);
                    proof {
                        lemma_remove_insert(
                            moved_in_order(ms, ids@.take(i as int), id, old_index, new_index),
                            k,
                            markers@.markers[k],
                        );
                    }
                },
                None => {
                    assert(markers@.markers =~= moved_in_order(ms, ids@.take(i as int), id, old_index, new_index));
                },
            }
            assert(markers@.markers =~= moved_in_order(ms, ids@.take(i as int + 1), id, old_index, new_index));
            i = i + 1;
        }
        assert(ids@.take(ids@.len() as int) =~= ids@);
        events.push(DomainEvent::MarkerOrderMoved { id, image_id, old_index, new_index });
        assert(event_views(events@) =~= event_views(old(events)@).push(events@.last()@));
        Ok(true)
    }

    /// Deletes a marker, drops it from its page's lists and renumbers the
    /// page's remaining markers; `Ok(false)` for an unknown marker.
    pub fn remove_marker_with_undo(
        &self,
        markers: &mut MarkerStorage,
        images: &mut ImageStorage,
        events: &mut Vec<DomainEvent>,
        id: MarkerId,
    ) -> (r: CoreResult<bool>)
        ensures
            !old(markers)@.markers.contains_key(id) ==> {
                &&& r == Ok::<bool, CoreError>(false)
                &&& final(markers)@ == old(markers)@
                &&& final(images)@ == old(images)@
                &&& final(events)@ == old(events)@
            },
            old(markers)@.markers.contains_key(id) ==> {
                let m = old(markers)@.markers[id];
                let removed = MarkerStorageView {
                    markers: old(markers)@.markers.remove(id),
                    by_image: list_without(old(markers)@.by_image, m.image_id, id),
                };
                &&& r == Ok::<bool, CoreError>(true)
                &&& final(markers)@.by_image == removed.by_image
                &&& renumbered(removed, m.image_id, final(markers)@.markers)
                &&& image_updated(
                    old(images)@,
                    final(images)@,
                    m.image_id,
                    ImageView {
                        marker_ids: without(old(images)@.images[m.image_id].marker_ids, id),
                        ..old(images)@.images[m.image_id]
                    },
                )
                &&& event_views(final(events)@) == event_views(old(events)@).push(
                    EventView::MarkerRemovedFromImage(m.image_id, id, m),
                )
            },
    {
        match markers.remove_with_cleanup(id) {
            Some(marker) => {
                let image_id = marker.image_id;
                remove_marker_from_image_storage(images, image_id, id)?;
                let ghost removed = markers@;
                renumber_image_markers(markers, image_id)?;
                events.push(DomainEvent::MarkerRemovedFromImage(image_id, id, marker));
                assert(event_views(events@) =~= event_views(old(events)@).push(events@.last()@));
                Ok(true)
            },
            None => Ok(false),
        }
    }

    /// Takes all markers of a page out of the store (they are handed to
    /// the caller, each once, in the page's order) and empties the page's
    /// marker list.
    pub fn take_image_markers(&self, markers: &mut MarkerStorage, images: &mut ImageStorage, image_id: ImageId) -> (r:
        CoreResult<Vec<Marker>>)
        ensures
            match r {
                Ok(v) => {
                    let ids = page_list(old(markers)@.by_image, image_id);
                    &&& v@.map_values(|m: Marker| m@) == first_present(ids, old(markers)@.markers)
                    &&& final(markers)@.markers == old(markers)@.markers.remove_keys(ids.to_set())
                    &&& final(markers)@.by_image == old(markers)@.by_image.remove(image_id)
                    &&& image_updated(
                        old(images)@,
                        final(images)@,
                        image_id,
                        ImageView { marker_ids: Seq::empty(), ..old(images)@.images[image_id] },
                    )
                },
                Err(_) => false,
            },
    {
        let ids: Vec<MarkerId> = match markers.image_list(image_id) {
            Some(v) => v.clone(),
            None => Vec::new(),
        };
        let ghost ms = old(markers)@.markers;
        let mut removed: Vec<Marker> = Vec::new();
        let mut i: usize = 0;
        while i < ids.len()
            invariant
                i <= ids@.len(),
                markers@.by_image == old(markers)@.by_image,
                markers@.markers == ms.remove_keys(ids@.take(i as int).to_set()),
                removed@.map_values(|m: Marker| m@) == first_present(ids@.take(i as int), ms),
            decreases ids@.len() - i,
        {
            let k = ids[i];
            proof {
                assert(ids@.take(i as int + 1).drop_last() =~= ids@.take(i as int));
                lemma_take_to_set(ids@, i as int);
            }
            match markers.take(k) {
                Some(m) => {
                    proof {
                        assert(!ids@.take(i as int).contains(k)) by {
                            if ids@.take(i as int).contains(k) {
                                assert(ids@.take(i as int).to_set().contains(k));
                            }
                        }
                    }
                    removed.push(m);
                },
                None => {
                    proof {
                        if ms.contains_key(k) {
                            assert(ids@.take(i as int).to_set().contains(k));
                            let j = choose|j: int| 0 <= j < i && ids@.take(i as int)[j] == k;
                            assert(ids@.take(i as int).contains(k));
                        }
                    }
                },
            }
            assert(markers@.markers =~= ms.remove_keys(ids@.take(i as int + 1).to_set()));
            assert(removed@.map_values(|m: Marker| m@) =~= first_present(ids@.take(i as int + 1), ms));
            i = i + 1;
        }
        assert(ids@.take(ids@.len() as int) =~= ids@);
        let _ = markers.take_image_list(image_id);
        clear_image_markers_storage(images, image_id)?;
        Ok(removed)
    }

    /// Puts markers back into the store, each appended to its page's list,
    /// and records them in their images' marker lists.
    pub fn restore_image_markers(&self, markers: &mut MarkerStorage, images: &mut ImageStorage, ms: Vec<Marker>) -> (r:
        CoreResult<()>)
        ensures
            r == Ok::<(), CoreError>(()),
            final(markers)@ == inserted_all(old(markers)@, ms@.map_values(|m: Marker| m@)),
            final(images)@ == images_with_entries(old(images)@, own_pages(ms@.map_values(|m: Marker| m@))),
    {
        let ghost views = ms@.map_values(|m: Marker| m@);
        if ms.len() == 0 {
            assert(views =~= Seq::<MarkerView>::empty());
            assert(own_pages(views) =~= Seq::<(ImageId, MarkerId)>::empty());
            return Ok(());
        }
        let mut i: usize = 0;
        while i < ms.len()
            invariant
                i <= ms@.len(),
                views == ms@.map_values(|m: Marker| m@),
                markers@ == inserted_all(old(markers)@, views.take(i as int)),
                images@ == old(images)@,
            decreases ms@.len() - i,
        {
            proof {
                assert(views.take(i as int + 1).drop_last() =~= views.take(i as int));
            }
            markers.insert_with_image(ms[i].clone())?;
            i = i + 1;
        }
        assert(views.take(ms@.len() as int) =~= views);
        let mut j: usize = 0;
        while j < ms.len()
            invariant
                j <= ms@.len(),
                views == ms@.map_values(|m: Marker| m@),
                images@ == images_with_entries(old(images)@, own_pages(views).take(j as int)),
            decreases ms@.len() - j,
        {
            proof {
                assert(own_pages(views).take(j as int + 1).drop_last() =~= own_pages(views).take(j as int));
            }
            add_marker_to_image_storage(images, ms[j].image_id, ms[j].id)?;
            proof {
                let prev = images_with_entries(old(images)@, own_pages(views).take(j as int));
                if prev.images.contains_key(ms@[j as int].image_id) {
                    lemma_remove_insert(prev.images, ms@[j as int].image_id, images@.images[ms@[j as int].image_id]);
                }
                assert(images@ == images_with_entries(old(images)@, own_pages(views).take(j as int + 1)));
            }
            j = j + 1;
        }
        assert(own_pages(views).take(ms@.len() as int) =~= own_pages(views));
        Ok(())
    }

    /// Deletes all markers of a page with their machine results, empties the
    /// page's marker list, and announces the deleted markers (if any).
    pub fn clear_image_markers_with_undo(
        &self,
        markers: &mut MarkerStorage,
        images: &mut ImageStorage,
        cache: &mut BunnyCacheStorage,
        events: &mut Vec<DomainEvent>,
        image_id: ImageId,
    ) -> (r: CoreResult<()>)
        ensures
            r == Ok::<(), CoreError>(()),
            ({
                let ids = page_list(old(markers)@.by_image, image_id);
                let gone = first_present(ids, old(markers)@.markers);
                &&& final(markers)@.markers == old(markers)@.markers.remove_keys(ids.to_set())
                &&& final(markers)@.by_image == old(markers)@.by_image.remove(image_id)
                &&& final(cache)@ == old(cache)@.remove_keys(ids.to_set())
                &&& image_updated(
                    old(images)@,
                    final(images)@,
                    image_id,
                    ImageView { marker_ids: Seq::empty(), ..old(images)@.images[image_id] },
                )
                &&& gone.len() > 0 ==> event_views(final(events)@) == event_views(old(events)@).push(
                    EventView::ImageMarkersCleared(image_id, gone),
                )
                &&& gone.len() == 0 ==> final(events)@ == old(events)@
            }),
    {
        let ids: Vec<MarkerId> = match markers.image_list(image_id) {
            Some(v) => v.clone(),
            None => Vec::new(),
        };
        let ghost idset = ids@.to_set();
        let removed = self.take_image_markers(markers, images, image_id)?;
        let mut i: usize = 0;
        while i < ids.len()
            invariant
                i <= ids@.len(),
                cache@ == old(cache)@.remove_keys(ids@.take(i as int).to_set()),
            decreases ids@.len() - i,
        {
            proof {
                lemma_take_to_set(ids@, i as int);
            }
            clear_bunny_cache_storage(cache, ids[i])?;
            assert(cache@ =~= old(cache)@.remove_keys(ids@.take(i as int + 1).to_set()));
            i = i + 1;
        }
        assert(ids@.take(ids@.len() as int) =~= ids@);
        if removed.len() > 0 {
            events.push(DomainEvent::ImageMarkersCleared(image_id, removed));
            assert(event_views(events@) =~= event_views(old(events)@).push(events@.last()@));
        }
        Ok(())
    }
}

/// The marker a page gets when a marker is added to it: the next index, the
/// given geometry and translation (empty when none), the default style.
pub open spec fn new_marker_view(
    id: MarkerId,
    image_id: ImageId,
    geometry: MarkerGeometry,
    translation: Option<Seq<char>>,
    index: int,
) -> MarkerView {
    MarkerView {
        id,
        image_id,
        geometry,
        translation: match translation {
            Some(t) => t,
            None => Seq::empty(),
        },
        style: MarkerStyle { overlay_text: false, horizontal: false },
        image_index: index as u32,
    }
}

/// The stores after a new marker is added to a page: it takes the next
/// identifier and is stored, listed on its page and in its image.
pub open spec fn marker_added(
    old_m: MarkerStorageView,
    new_m: MarkerStorageView,
    old_i: ImageStorageView,
    new_i: ImageStorageView,
    m: MarkerView,
) -> bool {
    &&& new_m.markers == old_m.markers.insert(m.id, m)
    &&& new_m.by_image == old_m.by_image.insert(m.image_id, page_list(old_m.by_image, m.image_id).push(m.id))
    &&& image_updated(
        old_i,
        new_i,
        m.image_id,
        ImageView { marker_ids: push_unique(old_i.images[m.image_id].marker_ids, m.id), ..old_i.images[m.image_id] },
    )
}

/// The largest index among a page's stored markers.
fn page_max_index(markers: &MarkerStorage, image_id: ImageId) -> (r: (bool, u32))
    ensures
        r.0 == (present_markers(page_list(markers@.by_image, image_id), markers@.markers).len() == 0),
        r.1 == max_index(present_markers(page_list(markers@.by_image, image_id), markers@.markers)),
{
    let list = markers.get_by_image(image_id);
    let ghost views = list@.map_values(|m: &Marker| m@);
    let mut best: u32 = 0;
    let mut i: usize = 0;
    while i < list.len()
        invariant
            i <= list@.len(),
            views == list@.map_values(|m: &Marker| m@),
            best == max_index(views.take(i as int)),
        decreases list@.len() - i,
    {
        assert(views.take(i as int + 1).drop_last() =~= views.take(i as int));
        if list[i].image_index > best {
            best = list[i].image_index;
        }
        i = i + 1;
    }
    assert(views.take(list@.len() as int) =~= views);
    (list.len() == 0, best)
}

impl MarkerService {
    /// Adds a point marker to a page, after the page's other markers.
    pub fn add_point_marker_to_image(
        &self,
        markers: &mut MarkerStorage,
        images: &mut ImageStorage,
        marker_ids: &mut IdGenerator,
        image_id: ImageId,
        x: u64,
        y: u64,
        translation: Option<String>,
    ) -> (r: CoreResult<MarkerId>)
        requires
            max_index(present_markers(page_list(old(markers)@.by_image, image_id), old(markers)@.markers)) < u32::MAX,
        ensures
            r == Ok::<MarkerId, CoreError>(old(marker_ids).peek()),
            final(marker_ids).peek() == (if old(marker_ids).peek() == u32::MAX {
                0
            } else {
                (old(marker_ids).peek() + 1) as u32
            }),
            marker_added(
                old(markers)@,
                final(markers)@,
                old(images)@,
                final(images)@,
                new_marker_view(
                    old(marker_ids).peek(),
                    image_id,
                    MarkerGeometry::Point { x, y },
                    opt_str_view(translation),
                    next_index(present_markers(page_list(old(markers)@.by_image, image_id), old(markers)@.markers)),
                ),
            ),
    {
        let id = marker_ids.next();
        let (empty, best) = page_max_index(markers, image_id);
        let image_index: u32 = if empty {
            1
        } else {
            best + 1
        };
        let marker = match translation {
            Some(trans) => Marker::point_with_translation(id, image_id, x, y, trans, image_index),
            None => Marker::new_point(id, image_id, x, y, image_index),
        };
        markers.insert_with_image(marker)?;
        add_marker_to_image_storage(images, image_id, id)?;
        Ok(id)
    }

    /// Adds a rectangle marker to a page, after the page's other markers.
    pub fn add_rectangle_marker_to_image(
        &self,
        markers: &mut MarkerStorage,
        images: &mut ImageStorage,
        marker_ids: &mut IdGenerator,
        image_id: ImageId,
        x: u64,
        y: u64,
        width: u64,
        height: u64,
        translation: Option<String>,
    ) -> (r: CoreResult<MarkerId>)
        requires
            max_index(present_markers(page_list(old(markers)@.by_image, image_id), old(markers)@.markers)) < u32::MAX,
        ensures
            r == Ok::<MarkerId, CoreError>(old(marker_ids).peek()),
            final(marker_ids).peek() == (if old(marker_ids).peek() == u32::MAX {
                0
            } else {
                (old(marker_ids).peek() + 1) as u32
            }),
            marker_added(
                old(markers)@,
                final(markers)@,
                old(images)@,
                final(images)@,
                new_marker_view(
                    old(marker_ids).peek(),
                    image_id,
                    MarkerGeometry::Rectangle { x, y, width, height },
                    opt_str_view(translation),
                    next_index(present_markers(page_list(old(markers)@.by_image, image_id), old(markers)@.markers)),
                ),
            ),
    {
        let id = marker_ids.next();
        let (empty, best) = page_max_index(markers, image_id);
        let image_index: u32 = if empty {
            1
        } else {
            best + 1
        };
        let marker = match translation {
            Some(trans) => Marker::rectangle_with_translation(id, image_id, x, y, width, height, trans, image_index),
            None => Marker::new_rectangle(id, image_id, x, y, width, height, image_index),
        };
        markers.insert_with_image(marker)?;
        add_marker_to_image_storage(images, image_id, id)?;
        Ok(id)
    }
}

} // verus!
