use vstd::prelude::*;
use crate::error::{CoreError, CoreResult};
use crate::ids::{ImageId, MarkerId};
use crate::marker::{Marker, MarkerGeometry, MarkerStyle, MarkerView, get_marker_storage};
use crate::state::{MarkerStorage, MarkerStorageView};
use crate::events::{DomainEvent, EventView, event_views};
use crate::dto::MarkerDTO;
use crate::state::{ImageStorage, page_list, present_markers};
use crate::ids::IdGenerator;
use crate::bunny_cache::BunnyCacheStorage;
use crate::image::{ImageView, image_updated};
use crate::project::push_unique;
use crate::marker::get_image_markers_storage;
use crate::marker_service::{marker_added, new_marker_view, max_index, next_index};
use crate::marker_service::{MarkerService, anchor_of, point_of, rect_of, with_marker, changed_or_not};

verus! {

/// The events after an update that reports `r`: a refresh notice is added
/// when it applied.
pub open spec fn refreshed(mid: Seq<EventView>, fin: Seq<EventView>, id: MarkerId, r: bool) -> bool {
    fin == (if r {
        mid.push(EventView::MarkerUpdated(id))
    } else {
        mid
    })
}

fn announce(events: &mut Vec<DomainEvent>, id: MarkerId)
    ensures
        event_views(final(events)@) == event_views(old(events)@).push(EventView::MarkerUpdated(id)),
{
    let ghost before = event_views(events@);
    events.push(DomainEvent::MarkerUpdated(id));
    assert(event_views(events@) =~= before.push(EventView::MarkerUpdated(id)));
}

impl MarkerService {
    /// A copy of a marker, if stored.
    pub fn get_marker_internal(&self, markers: &MarkerStorage, marker_id: u32) -> (r: Option<Marker>)
        ensures
            match r {
                Some(m) => markers@.markers.contains_key(marker_id) && m@ == markers@.markers[marker_id],
                None => !markers@.markers.contains_key(marker_id),
            },
    {
        match get_marker_storage(markers, marker_id) {
            Ok(opt) => opt,
            Err(_) => None,
        }
    }

    /// The number of markers.
    pub fn marker_count(&self, markers: &MarkerStorage) -> (r: CoreResult<usize>)
        ensures
            r == Ok::<usize, CoreError>(markers@.markers.dom().len() as usize),
            markers@.markers.dom().len() <= usize::MAX,
    {
        Ok(markers.len())
    }

    /// Whether a marker is stored.
    pub fn marker_exists(&self, markers: &MarkerStorage, id: MarkerId) -> (r: CoreResult<bool>)
        ensures
            r == Ok::<bool, CoreError>(markers@.markers.contains_key(id)),
    {
        Ok(markers.contains(id))
    }

    /// Moves a point marker (recorded for undo) and asks for a refresh;
    /// whether it was a point marker.
    pub fn update_point_marker_position(
        &self,
        markers: &mut MarkerStorage,
        events: &mut Vec<DomainEvent>,
        marker_id: u32,
        x: u64,
        y: u64,
    ) -> (r: bool)
        ensures
            r == (old(markers)@.markers.contains_key(marker_id) && point_of(old(markers)@.markers[marker_id].geometry) is Some),
            exists|mid: Seq<EventView>|
                changed_or_not(
                    r,
                    old(markers)@,
                    final(markers)@,
                    with_marker(
                        old(markers)@,
                        marker_id,
                        MarkerView { geometry: MarkerGeometry::Point { x, y }, ..old(markers)@.markers[marker_id] },
                    ),
                    event_views(old(events)@),
                    mid,
                    EventView::PointMarkerPositionUpdated {
                        id: marker_id,
                        old_pos: anchor_of(old(markers)@.markers[marker_id].geometry),
                        new_pos: (x, y),
                    },
                    Ok::<bool, CoreError>(r),
                ) && #[trigger] refreshed(mid, event_views(final(events)@), marker_id, r),
    {
        let result = match self.update_point_marker_position_with_undo(markers, events, marker_id, x, y) {
            Ok(res) => res,
            Err(_) => false,
        };
        let ghost mid = event_views(events@);
        if result {
            announce(events, marker_id);
        }
        assert(refreshed(mid, event_views(events@), marker_id, result));
        result
    }

    /// Reshapes a rectangle marker (recorded for undo) and asks for a
    /// refresh; whether it was a rectangle marker.
    pub fn update_rectangle_marker_geometry(
        &self,
        markers: &mut MarkerStorage,
        events: &mut Vec<DomainEvent>,
        marker_id: u32,
        x: u64,
        y: u64,
        width: u64,
        height: u64,
    ) -> (r: bool)
        ensures
            r == (old(markers)@.markers.contains_key(marker_id) && rect_of(old(markers)@.markers[marker_id].geometry) is Some),
            exists|mid: Seq<EventView>|
                changed_or_not(
                    r,
                    old(markers)@,
                    final(markers)@,
                    with_marker(
                        old(markers)@,
                        marker_id,
                        MarkerView {
                            geometry: MarkerGeometry::Rectangle { x, y, width, height },
                            ..old(markers)@.markers[marker_id]
                        },
                    ),
                    event_views(old(events)@),
                    mid,
                    EventView::RectangleGeometryUpdated {
                        id: marker_id,
                        old_geometry: rect_of(old(markers)@.markers[marker_id].geometry)->0,
                        new_geometry: (x, y, width, height),
                    },
                    Ok::<bool, CoreError>(r),
                ) && #[trigger] refreshed(mid, event_views(final(events)@), marker_id, r),
    {
        let result = match self.update_rectangle_marker_geometry_with_undo(markers, events, marker_id, x, y, width, height) {
            Ok(res) => res,
            Err(_) => false,
        };
        let ghost mid = event_views(events@);
        if result {
            announce(events, marker_id);
        }
        assert(refreshed(mid, event_views(events@), marker_id, result));
        result
    }

    /// Sets a marker's translation (recorded for undo) and asks for a
    /// refresh; whether there was such a marker.
    pub fn update_marker_translation(
        &self,
        markers: &mut MarkerStorage,
        events: &mut Vec<DomainEvent>,
        marker_id: u32,
        translation: String,
    ) -> (r: bool)
        ensures
            r == old(markers)@.markers.contains_key(marker_id),
            exists|mid: Seq<EventView>|
                changed_or_not(
                    r,
                    old(markers)@,
                    final(markers)@,
                    with_marker(
                        old(markers)@,
                        marker_id,
                        MarkerView { translation: translation@, ..old(markers)@.markers[marker_id] },
                    ),
                    event_views(old(events)@),
                    mid,
                    EventView::MarkerTranslationUpdated {
                        id: marker_id,
                        old_trans: old(markers)@.markers[marker_id].translation,
                        new_trans: translation@,
                    },
                    Ok::<bool, CoreError>(r),
                ) && #[trigger] refreshed(mid, event_views(final(events)@), marker_id, r),
    {
        let result = match self.update_marker_translation_with_undo(markers, events, marker_id, translation) {
            Ok(res) => res,
            Err(_) => false,
        };
        let ghost mid = event_views(events@);
        if result {
            announce(events, marker_id);
        }
        assert(refreshed(mid, event_views(events@), marker_id, result));
        result
    }

    /// Sets a marker's style (recorded for undo) and asks for a refresh;
    /// whether there was such a marker.
    pub fn update_marker_style(
        &self,
        markers: &mut MarkerStorage,
        events: &mut Vec<DomainEvent>,
        marker_id: u32,
        overlay_text: bool,
        horizontal: bool,
    ) -> (r: bool)
        ensures
            r == old(markers)@.markers.contains_key(marker_id),
            exists|mid: Seq<EventView>|
                changed_or_not(
                    r,
                    old(markers)@,
                    final(markers)@,
                    with_marker(
                        old(markers)@,
                        marker_id,
                        MarkerView { style: MarkerStyle { overlay_text, horizontal }, ..old(markers)@.markers[marker_id] },
                    ),
                    event_views(old(events)@),
                    mid,
                    EventView::MarkerStyleUpdated {
                        id: marker_id,
                        old_style: old(markers)@.markers[marker_id].style,
                        new_style: MarkerStyle { overlay_text, horizontal },
                    },
                    Ok::<bool, CoreError>(r),
                ) && #[trigger] refreshed(mid, event_views(final(events)@), marker_id, r),
    {
        let style = MarkerStyle { overlay_text, horizontal };
        let result = match self.update_marker_style_with_undo(markers, events, marker_id, style) {
            Ok(res) => res,
            Err(_) => false,
        };
        let ghost mid = event_views(events@);
        if result {
            announce(events, marker_id);
        }
        assert(refreshed(mid, event_views(events@), marker_id, result));
        result
    }

    /// Moves a point marker and sets its translation (kept when none is
    /// given), keeping its style; recorded for undo, with a refresh; whether
    /// it was a point marker.
    pub fn update_point_marker_full(
        &self,
        markers: &mut MarkerStorage,
        events: &mut Vec<DomainEvent>,
        marker_id: u32,
        x: u64,
        y: u64,
        translation: Option<String>,
    ) -> (r: bool)
        ensures
            r == (old(markers)@.markers.contains_key(marker_id) && point_of(old(markers)@.markers[marker_id].geometry) is Some),
            ({
                let m = old(markers)@.markers[marker_id];
                let t = match translation {
                    Some(s) => s@,
                    None => m.translation,
                };
                exists|mid: Seq<EventView>|
                    changed_or_not(
                        r,
                        old(markers)@,
                        final(markers)@,
                        with_marker(
                            old(markers)@,
                            marker_id,
                            MarkerView { geometry: MarkerGeometry::Point { x, y }, translation: t, ..m },
                        ),
                        event_views(old(events)@),
                        mid,
                        EventView::MarkerFullUpdated {
                            id: marker_id,
                            old_position: anchor_of(m.geometry),
                            new_position: (x, y),
                            old_translation: m.translation,
                            new_translation: t,
                            old_style: m.style,
                            new_style: m.style,
                        },
                        Ok::<bool, CoreError>(r),
                    ) && #[trigger] refreshed(mid, event_views(final(events)@), marker_id, r)
            }),
    {
        match self.get_marker_internal(markers, marker_id) {
            Some(current) => {
                match current.geometry {
                    MarkerGeometry::Point { .. } => {
                        let t = match translation {
                            Some(s) => s,
                            None => current.translation,
                        };
                        let result = match self.update_point_marker_with_undo(
                            markers,
                            events,
                            marker_id,
                            x,
                            y,
                            t,
                            current.style,
                        ) {
                            Ok(res) => res,
                            Err(_) => false,
                        };
                        let ghost mid = event_views(events@);
                        if result {
                            announce(events, marker_id);
                        }
                        assert(refreshed(mid, event_views(events@), marker_id, result));
                        result
                    },
                    _ => {
                        assert(refreshed(event_views(events@), event_views(events@), marker_id, false));
                        false
                    },
                }
            },
            None => {
                assert(refreshed(event_views(events@), event_views(events@), marker_id, false));
                false
            },
        }
    }

    /// Reshapes a rectangle marker and sets its translation (kept when none
    /// is given), keeping its style; recorded for undo, with a refresh;
    /// whether it was a rectangle marker.
    pub fn update_rectangle_marker_full(
        &self,
        markers: &mut MarkerStorage,
        events: &mut Vec<DomainEvent>,
        marker_id: u32,
        x: u64,
        y: u64,
        width: u64,
        height: u64,
        translation: Option<String>,
    ) -> (r: bool)
        ensures
            r == (old(markers)@.markers.contains_key(marker_id) && rect_of(old(markers)@.markers[marker_id].geometry) is Some),
            ({
                let m = old(markers)@.markers[marker_id];
                let t = match translation {
                    Some(s) => s@,
                    None => m.translation,
                };
                exists|mid: Seq<EventView>|
                    changed_or_not(
                        r,
                        old(markers)@,
                        final(markers)@,
                        with_marker(
                            old(markers)@,
                            marker_id,
                            MarkerView {
                                geometry: MarkerGeometry::Rectangle { x, y, width, height },
                                translation: t,
                                ..m
                            },
                        ),
                        event_views(old(events)@),
                        mid,
                        EventView::MarkerFullUpdated {
                            id: marker_id,
                            old_position: anchor_of(m.geometry),
                            new_position: (x, y),
                            old_translation: m.translation,
                            new_translation: t,
                            old_style: m.style,
                            new_style: m.style,
                        },
                        Ok::<bool, CoreError>(r),
                    ) && #[trigger] refreshed(mid, event_views(final(events)@), marker_id, r)
            }),
    {
        match self.get_marker_internal(markers, marker_id) {
            Some(current) => {
                match current.geometry {
                    MarkerGeometry::Rectangle { .. } => {
                        let t = match translation {
                            Some(s) => s,
                            None => current.translation,
                        };
                        let result = match self.update_rectangle_marker_with_undo(
                            markers,
                            events,
                            marker_id,
                            x,
                            y,
                            width,
                            height,
                            t,
                            current.style,
                        ) {
                            Ok(res) => res,
                            Err(_) => false,
                        };
                        let ghost mid = event_views(events@);
                        if result {
                            announce(events, marker_id);
                        }
                        assert(refreshed(mid, event_views(events@), marker_id, result));
                        result
                    },
                    _ => {
                        assert(refreshed(event_views(events@), event_views(events@), marker_id, false));
                        false
                    },
                }
            },
            None => {
                assert(refreshed(event_views(events@), event_views(events@), marker_id, false));
                false
            },
        }
    }

    /// Moves a marker to another place in its page's numbering; whether there
    /// was such a marker (see `move_marker_order_with_undo`).
    pub fn move_marker_order(
        &self,
        markers: &mut MarkerStorage,
        events: &mut Vec<DomainEvent>,
        marker_id: u32,
        new_index: u32,
    ) -> (r: bool)
        ensures
            r == old(markers)@.markers.contains_key(marker_id),
            !r ==> final(markers)@ == old(markers)@ && final(events)@ == old(events)@,
            r ==> {
                let m = old(markers)@.markers[marker_id];
                &&& final(markers)@.by_image == old(markers)@.by_image
                &&& m.image_index == new_index ==> final(markers)@ == old(markers)@ && final(events)@ == old(events)@
                &&& m.image_index != new_index ==> {
                    &&& final(markers)@.markers == crate::marker_service::moved_in_order(
                        old(markers)@.markers,
                        crate::state::page_list(old(markers)@.by_image, m.image_id),
                        marker_id,
                        m.image_index,
                        new_index,
                    )
                    &&& event_views(final(events)@) == event_views(old(events)@).push(
                        EventView::MarkerOrderMoved {
                            id: marker_id,
                            image_id: m.image_id,
                            old_index: m.image_index,
                            new_index,
                        },
                    )
                }
            },
    {
        match self.move_marker_order_with_undo(markers, events, marker_id, new_index) {
            Ok(res) => res,
            Err(_) => false,
        }
    }

    /// Deletes a marker (recorded for undo, see `remove_marker_with_undo`)
    /// and announces the deletion; whether there was such a marker.
    pub fn remove_marker(
        &self,
        markers: &mut MarkerStorage,
        images: &mut crate::state::ImageStorage,
        events: &mut Vec<DomainEvent>,
        marker_id: u32,
    ) -> (r: bool)
        ensures
            r == old(markers)@.markers.contains_key(marker_id),
            !r ==> final(markers)@ == old(markers)@ && final(images)@ == old(images)@ && final(events)@ == old(
                events,
            )@,
            r ==> {
                let m = old(markers)@.markers[marker_id];
                let removed = MarkerStorageView {
                    markers: old(markers)@.markers.remove(marker_id),
                    by_image: crate::state::list_without(old(markers)@.by_image, m.image_id, marker_id),
                };
                &&& final(markers)@.by_image == removed.by_image
                &&& crate::marker_service::renumbered(removed, m.image_id, final(markers)@.markers)
                &&& crate::image::image_updated(
                    old(images)@,
                    final(images)@,
                    m.image_id,
                    crate::image::ImageView {
                        marker_ids: crate::collections::without(old(images)@.images[m.image_id].marker_ids, marker_id),
                        ..old(images)@.images[m.image_id]
                    },
                )
                &&& event_views(final(events)@) == event_views(old(events)@).push(
                    EventView::MarkerRemovedFromImage(m.image_id, marker_id, m),
                ).push(EventView::MarkerDeleted(marker_id))
            },
    {
        let result = match self.remove_marker_with_undo(markers, images, events, marker_id) {
            Ok(res) => res,
            Err(_) => false,
        };
        if result {
            let ghost before = event_views(events@);
            events.push(DomainEvent::MarkerDeleted(marker_id));
            assert(event_views(events@) =~= before.push(EventView::MarkerDeleted(marker_id)));
        }
        result
    }
}

impl MarkerService {
    /// Adds a point marker to a page; the new marker's identifier.
    pub fn add_point_marker(
        &self,
        markers: &mut MarkerStorage,
        images: &mut ImageStorage,
        marker_ids: &mut IdGenerator,
        image_id: u32,
        x: u64,
        y: u64,
        translation: Option<String>,
    ) -> (r: Option<u32>)
        requires
            max_index(present_markers(page_list(old(markers)@.by_image, image_id), old(markers)@.markers)) < u32::MAX,
        ensures
            r == Some(old(marker_ids).peek()),
            final(marker_ids).peek() == (if old(marker_ids).peek() == u32::MAX {
                0
            } else {
                (old(marker_ids).peek() + 1) as u32
            }),
            marker_added(
                old(markers)@,
                final(markers)@,
                old(images)@,
                final(images)@,
                new_marker_view(
                    old(marker_ids).peek(),
                    image_id,
                    MarkerGeometry::Point { x, y },
                    crate::project::opt_str_view(translation),
                    next_index(present_markers(page_list(old(markers)@.by_image, image_id), old(markers)@.markers)),
                ),
            ),
    {
        match self.add_point_marker_to_image(markers, images, marker_ids, image_id, x, y, translation) {
            Ok(id) => Some(id),
            Err(_) => None,
        }
    }

    /// Adds a rectangle marker to a page; the new marker's identifier.
    pub fn add_rectangle_marker(
        &self,
        markers: &mut MarkerStorage,
        images: &mut ImageStorage,
        marker_ids: &mut IdGenerator,
        image_id: u32,
        x: u64,
        y: u64,
        width: u64,
        height: u64,
        translation: Option<String>,
    ) -> (r: Option<u32>)
        requires
            max_index(present_markers(page_list(old(markers)@.by_image, image_id), old(markers)@.markers)) < u32::MAX,
        ensures
            r == Some(old(marker_ids).peek()),
            final(marker_ids).peek() == (if old(marker_ids).peek() == u32::MAX {
                0
            } else {
                (old(marker_ids).peek() + 1) as u32
            }),
            marker_added(
                old(markers)@,
                final(markers)@,
                old(images)@,
                final(images)@,
                new_marker_view(
                    old(marker_ids).peek(),
                    image_id,
                    MarkerGeometry::Rectangle { x, y, width, height },
                    crate::project::opt_str_view(translation),
                    next_index(present_markers(page_list(old(markers)@.by_image, image_id), old(markers)@.markers)),
                ),
            ),
    {
        match self.add_rectangle_marker_to_image(markers, images, marker_ids, image_id, x, y, width, height, translation) {
            Ok(id) => Some(id),
            Err(_) => None,
        }
    }

    /// The front-end form of a marker, if stored.
    pub fn get_marker_by_id(&self, markers: &MarkerStorage, id: MarkerId) -> (r: CoreResult<Option<MarkerDTO>>)
        ensures
            match r {
                Ok(Some(d)) => markers@.markers.contains_key(id) && d@ == markers@.markers[id],
                Ok(None) => !markers@.markers.contains_key(id),
                Err(_) => false,
            },
    {
        match get_marker_storage(markers, id)? {
            Some(m) => Ok(Some(m.to_dto())),
            None => Ok(None),
        }
    }

    /// The front-end form of a marker, if stored.
    pub fn get_marker(&self, markers: &MarkerStorage, marker_id: u32) -> (r: Option<MarkerDTO>)
        ensures
            match r {
                Some(d) => markers@.markers.contains_key(marker_id) && d@ == markers@.markers[marker_id],
                None => !markers@.markers.contains_key(marker_id),
            },
    {
        match self.get_marker_by_id(markers, marker_id) {
            Ok(opt) => opt,
            Err(_) => None,
        }
    }

    /// The front-end forms of a page's stored markers, in the page's order.
    pub fn get_image_markers(&self, markers: &MarkerStorage, image_id: ImageId) -> (r: CoreResult<Vec<MarkerDTO>>)
        ensures
            match r {
                Ok(v) => v@.map_values(|d: MarkerDTO| d@) == present_markers(
                    page_list(markers@.by_image, image_id),
                    markers@.markers,
                ),
                Err(_) => false,
            },
    {
        let ms = get_image_markers_storage(markers, image_id)?;
        let mut out: Vec<MarkerDTO> = Vec::new();
        let mut i: usize = 0;
        while i < ms.len()
            invariant
                i <= ms@.len(),
                out@.len() == i,
                forall|j: int| 0 <= j < i ==> out@[j]@ == ms@[j]@,
            decreases ms@.len() - i,
        {
            out.push(ms[i].to_dto());
            i = i + 1;
        }
        assert(out@.map_values(|d: MarkerDTO| d@) =~= ms@.map_values(|m: Marker| m@));
        Ok(out)
    }

    /// Deletes every marker.
    pub fn clear_all_markers(&self, markers: &mut MarkerStorage) -> (r: CoreResult<()>)
        ensures
            r == Ok::<(), CoreError>(()),
            final(markers)@.markers == Map::<MarkerId, MarkerView>::empty(),
            final(markers)@.by_image == Map::<ImageId, Seq<MarkerId>>::empty(),
    {
        crate::marker::clear_all_markers_storage(markers)
    }

    /// Deletes every marker.
    pub fn clear_all(&self, markers: &mut MarkerStorage)
        ensures
            final(markers)@.markers == Map::<MarkerId, MarkerView>::empty(),
            final(markers)@.by_image == Map::<ImageId, Seq<MarkerId>>::empty(),
    {
        let _ = self.clear_all_markers(markers);
    }

    /// Deletes a page's markers (see `clear_image_markers_with_undo`);
    /// whether that succeeded.
    pub fn clear_image_markers(
        &self,
        markers: &mut MarkerStorage,
        images: &mut ImageStorage,
        cache: &mut BunnyCacheStorage,
        events: &mut Vec<DomainEvent>,
        image_id: u32,
    ) -> (r: bool)
        ensures
            r,
            ({
                let ids = page_list(old(markers)@.by_image, image_id);
                let gone = crate::marker_service::first_present(ids, old(markers)@.markers);
                &&& final(markers)@.markers == old(markers)@.markers.remove_keys(ids.to_set())
                &&& final(markers)@.by_image == old(markers)@.by_image.remove(image_id)
                &&& final(cache)@ == old(cache)@.remove_keys(ids.to_set())
                &&& image_updated(
                    old(images)@,
                    final(images)@,
                    image_id,
                    ImageView { marker_ids: Seq::empty(), ..old(images)@.images[image_id] },
                )
                &&& gone.len() > 0 ==> event_views(final(events)@) == event_views(old(events)@).push(
                    EventView::ImageMarkersCleared(image_id, gone),
                )
                &&& gone.len() == 0 ==> final(events)@ == old(events)@
            }),
    {
        match self.clear_image_markers_with_undo(markers, images, cache, events, image_id) {
            Ok(_) => true,
            Err(_) => false,
        }
    }

    /// Reacts to a notice: clearing all data empties the marker store;
    /// clearing a page's markers deletes them; others are ignored.
    pub fn handle(
        &self,
        markers: &mut MarkerStorage,
        images: &mut ImageStorage,
        cache: &mut BunnyCacheStorage,
        events: &mut Vec<DomainEvent>,
        event: &DomainEvent,
    )
        ensures
            match event@ {
                EventView::AllDataClearing => {
                    &&& final(markers)@.markers == Map::<MarkerId, MarkerView>::empty()
                    &&& final(markers)@.by_image == Map::<ImageId, Seq<MarkerId>>::empty()
                    &&& final(images)@ == old(images)@
                    &&& final(cache)@ == old(cache)@
                    &&& final(events)@ == old(events)@
                },
                EventView::ImageMarkersClearing(image_id) => {
                    let ids = page_list(old(markers)@.by_image, image_id);
                    let gone = crate::marker_service::first_present(ids, old(markers)@.markers);
                    &&& final(markers)@.markers == old(markers)@.markers.remove_keys(ids.to_set())
                    &&& final(markers)@.by_image == old(markers)@.by_image.remove(image_id)
                    &&& final(cache)@ == old(cache)@.remove_keys(ids.to_set())
                    &&& image_updated(
                        old(images)@,
                        final(images)@,
                        image_id,
                        ImageView { marker_ids: Seq::empty(), ..old(images)@.images[image_id] },
                    )
                    &&& gone.len() > 0 ==> event_views(final(events)@) == event_views(old(events)@).push(
                        EventView::ImageMarkersCleared(image_id, gone),
                    )
                    &&& gone.len() == 0 ==> final(events)@ == old(events)@
                },
                _ => {
                    &&& final(markers)@ == old(markers)@
                    &&& final(images)@ == old(images)@
                    &&& final(cache)@ == old(cache)@
                    &&& final(events)@ == old(events)@
                },
            },
    {
        match event {
            DomainEvent::AllDataClearing => {
                self.clear_all(markers);
            },
            DomainEvent::ImageMarkersClearing(image_id) => {
                self.clear_image_markers(markers, images, cache, events, *image_id);
            },
            _ => {},
        }
    }
}

} // verus!
