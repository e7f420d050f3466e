use vstd::prelude::*;
use crate::error::{CoreError, CoreResult};
use crate::ids::{MarkerId, ProjectId};
use crate::marker::{Marker, MarkerGeometry, MarkerView};
use crate::state::{MarkerStorage, MarkerStorageView, ProjectStorage};
use crate::project::{ProjectView, find_project_by_image_storage};
use crate::events::{DomainEvent, EventView, Position, RectGeometry, event_views};
use crate::marker_service::{MarkerService, point_of, rect_of, with_marker};
use crate::undo_actions::{ActionType, ActionView, UndoRedoAction, UndoRedoActionView};
use crate::undo_service::{UndoRedoService, current_notice, notice_views};
use crate::undo_stack::after_push_action;
use crate::collections::lemma_remove_insert;

verus! {

/// The history after recording the conversion `at` of a marker on `page`:
/// when some project lists the page, an entry for the one with the smallest
/// identifier is recorded (with its notice); otherwise nothing changes.
pub open spec fn conversion_recorded(
    projects: Map<ProjectId, ProjectView>,
    page: u32,
    at: ActionView,
    old_u: UndoRedoService,
    new_u: UndoRedoService,
) -> bool {
    if exists|p: ProjectId| #[trigger] projects.contains_key(p) && projects[p].image_ids.contains(page) {
        exists|a: UndoRedoActionView|
            {
                &&& a.action_type == at
                &&& crate::project::least_lister(projects, page, a.project_id)
                &&& new_u.stack@ == #[trigger] after_push_action(old_u.stack@, a)
                &&& notice_views(new_u.pending@) == notice_views(old_u.pending@).push(
                    current_notice(new_u.stack@, a.project_id),
                )
            }
    } else {
        new_u.stack@ == old_u.stack@ && new_u.pending@ == old_u.pending@
    }
}

impl MarkerService {
    /// Records a conversion in the history of the project that lists the
    /// marker's page, if any.
    fn record_conversion(
        &self,
        projects: &ProjectStorage,
        undo: &mut UndoRedoService,
        page: u32,
        action_type: ActionType,
    )
        ensures
            conversion_recorded(projects@, page, action_type@, *old(undo), *final(undo)),
    {
        match find_project_by_image_storage(projects, page) {
            Ok(Some(project_id)) => {
                let action = UndoRedoAction::new(action_type, project_id);
                let ghost a = action@;
                let _ = undo.record_action(action);
                assert(after_push_action(old(undo).stack@, a) == undo.stack@);
            },
            _ => {},
        }
    }

    /// Turns a point marker into the rectangle `rect` (worked out from the
    /// point by the caller), records the conversion for undo and announces
    /// the update; other markers are left alone (`Ok(false)`).
    pub fn convert_point_to_rectangle_with_undo(
        &self,
        projects: &ProjectStorage,
        markers: &mut MarkerStorage,
        undo: &mut UndoRedoService,
        events: &mut Vec<DomainEvent>,
        id: MarkerId,
        rect: RectGeometry,
    ) -> (r: CoreResult<bool>)
        ensures
            old(markers)@.markers.contains_key(id) && point_of(old(markers)@.markers[id].geometry) is Some ==> {
                let m = old(markers)@.markers[id];
                let m2 = MarkerView {
                    geometry: MarkerGeometry::Rectangle { x: rect.0, y: rect.1, width: rect.2, height: rect.3 },
                    ..m
                };
                &&& r == Ok::<bool, CoreError>(true)
                &&& final(markers)@ == with_marker(old(markers)@, id, m2)
                &&& conversion_recorded(
                    projects@,
                    m.image_id,
                    ActionView::ConvertPointToRectangle { marker_id: id, old_marker: m, new_marker: m2 },
                    *old(undo),
                    *final(undo),
                )
                &&& event_views(final(events)@) == event_views(old(events)@).push(EventView::MarkerUpdated(id))
            },
            !(old(markers)@.markers.contains_key(id) && point_of(old(markers)@.markers[id].geometry) is Some) ==> {
                &&& r == Ok::<bool, CoreError>(false)
                &&& final(markers)@ == old(markers)@
                &&& *final(undo) == *old(undo)
                &&& final(events)@ == old(events)@
            },
    {
        match markers.take(id) {
            Some(mut marker) => {
                match marker.geometry {
                    MarkerGeometry::Point { .. } => {
                        let old_marker = marker.clone();
                        let page = marker.image_id;
                        marker.geometry = MarkerGeometry::Rectangle {
                            x: rect.0,
                            y: rect.1,
                            width: rect.2,
                            height: rect.3,
                        };
                        let new_marker = marker.clone();
                        markers.put(id, marker);
                        proof {
                            lemma_remove_insert(old(markers)@.markers, id, markers@.markers[id]);
                        }
                        self.record_conversion(
                            projects,
                            undo,
                            page,
                            ActionType::ConvertPointToRectangle { marker_id: id, old_marker, new_marker },
                        );
                        events.push(DomainEvent::MarkerUpdated(id));
                        assert(event_views(events@) =~= event_views(old(events)@).push(events@.last()@));
                        Ok(true)
                    },
                    _ => {
                        markers.put(id, marker);
                        proof {
                            lemma_remove_insert(old(markers)@.markers, id, markers@.markers[id]);
                            assert(markers@.markers =~= old(markers)@.markers);
                        }
                        Ok(false)
                    },
                }
            },
            None => {
                assert(markers@.markers =~= old(markers)@.markers);
                Ok(false)
            },
        }
    }

    /// Turns a rectangle marker into the point `point` (worked out from the
    /// rectangle by the caller), records the conversion for undo and
    /// announces the update; other markers are left alone (`Ok(false)`).
    pub fn convert_rectangle_to_point_with_undo(
        &self,
        projects: &ProjectStorage,
        markers: &mut MarkerStorage,
        undo: &mut UndoRedoService,
        events: &mut Vec<DomainEvent>,
        id: MarkerId,
        point: Position,
    ) -> (r: CoreResult<bool>)
        ensures
            old(markers)@.markers.contains_key(id) && rect_of(old(markers)@.markers[id].geometry) is Some ==> {
                let m = old(markers)@.markers[id];
                let m2 = MarkerView { geometry: MarkerGeometry::Point { x: point.0, y: point.1 }, ..m };
                &&& r == Ok::<bool, CoreError>(true)
                &&& final(markers)@ == with_marker(old(markers)@, id, m2)
                &&& conversion_recorded(
                    projects@,
                    m.image_id,
                    ActionView::ConvertRectangleToPoint { marker_id: id, old_marker: m, new_marker: m2 },
                    *old(undo),
                    *final(undo),
                )
                &&& event_views(final(events)@) == event_views(old(events)@).push(EventView::MarkerUpdated(id))
            },
            !(old(markers)@.markers.contains_key(id) && rect_of(old(markers)@.markers[id].geometry) is Some) ==> {
                &&& r == Ok::<bool, CoreError>(false)
                &&& final(markers)@ == old(markers)@
                &&& *final(undo) == *old(undo)
                &&& final(events)@ == old(events)@
            },
    {
        match markers.take(id) {
            Some(mut marker) => {
                match marker.geometry {
                    MarkerGeometry::Rectangle { .. } => {
                        let old_marker = marker.clone();
                        let page = marker.image_id;
                        marker.geometry = MarkerGeometry::Point { x: point.0, y: point.1 };
                        let new_marker = marker.clone();
                        markers.put(id, marker);
                        proof {
                            lemma_remove_insert(old(markers)@.markers, id, markers@.markers[id]);
                        }
                        self.record_conversion(
                            projects,
                            undo,
                            page,
                            ActionType::ConvertRectangleToPoint { marker_id: id, old_marker, new_marker },
                        );
                        events.push(DomainEvent::MarkerUpdated(id));
                        assert(event_views(events@) =~= event_views(old(events)@).push(events@.last()@));
                        Ok(true)
                    },
                    _ => {
                        markers.put(id, marker);
                        proof {
                            lemma_remove_insert(old(markers)@.markers, id, markers@.markers[id]);
                            assert(markers@.markers =~= old(markers)@.markers);
                        }
                        Ok(false)
                    },
                }
            },
            None => {
                assert(markers@.markers =~= old(markers)@.markers);
                Ok(false)
            },
        }
    }

    /// Turns a point marker into the rectangle `rect`; whether it did.
    pub fn convert_point_to_rectangle(
        &self,
        projects: &ProjectStorage,
        markers: &mut MarkerStorage,
        undo: &mut UndoRedoService,
        events: &mut Vec<DomainEvent>,
        marker_id: u32,
        rect: RectGeometry,
    ) -> (r: bool)
        ensures
            r == (old(markers)@.markers.contains_key(marker_id) && point_of(old(markers)@.markers[marker_id].geometry) is Some),
    {
        match self.convert_point_to_rectangle_with_undo(projects, markers, undo, events, marker_id, rect) {
            Ok(res) => res,
            Err(_) => false,
        }
    }

    /// Turns a rectangle marker into the point `point`; whether it did.
    pub fn convert_rectangle_to_point(
        &self,
        projects: &ProjectStorage,
        markers: &mut MarkerStorage,
        undo: &mut UndoRedoService,
        events: &mut Vec<DomainEvent>,
        marker_id: u32,
        point: Position,
    ) -> (r: bool)
        ensures
            r == (old(markers)@.markers.contains_key(marker_id) && rect_of(old(markers)@.markers[marker_id].geometry) is Some),
    {
        match self.convert_rectangle_to_point_with_undo(projects, markers, undo, events, marker_id, point) {
            Ok(res) => res,
            Err(_) => false,
        }
    }
}

} // verus!
