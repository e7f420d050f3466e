use vstd::prelude::*;
use crate::error::{CoreError, CoreResult};
use crate::ids::{ImageId, MarkerId, ProjectId};
use crate::marker::{Marker, MarkerGeometry, MarkerStyle, MarkerView, insert_marker_at_index, shifted_up};
use crate::image::{ImageView, estimated_size_of, image_updated, add_marker_to_image_storage};
use crate::project::{ProjectView, update_project_name_storage, update_project_languages_storage,
    remove_image_from_project_storage, reorder_project_images_storage};
use crate::state::{AppState, ImageStorageView, MarkerStorageView, ProjectStorage, page_list, list_without};
use crate::events::{DomainEvent, EventView, event_views, marker_views};
use crate::marker_service::{MarkerService, changed_or_not, with_marker, point_of, rect_of, anchor_of, moved_in_order,
    renumbered, first_present, inserted_all, images_with_entries, own_pages, on_page};
use crate::undo_actions::{ActionType, ActionView, UndoRedoAction, UndoRedoActionView, clone_markers};
use crate::sorting::{stably_sorted, marker_index, sort_markers_by_index};
use crate::collections::{without, lemma_remove_insert};
use crate::labelplus_export::{sorted_by_index, lemma_sorted_views};
use crate::marker::{index_pairs, numbered_in_order};
use crate::sorting::pair_index;

verus! {

/// The stores that undo and redo touch, by value.
pub struct CoreView {
    pub projects: Map<ProjectId, ProjectView>,
    pub images: ImageStorageView,
    pub markers: MarkerStorageView,
}

/// The stores of a state.
pub open spec fn core_of(s: AppState) -> CoreView {
    CoreView { projects: s.projects@, images: s.images@, markers: s.markers@ }
}

/// An action with its old and new sides swapped, for the kinds whose
/// reversal does not depend on the stores.
pub open spec fn swapped(a: ActionView) -> ActionView {
    match a {
        ActionView::UpdateProjectName { old_name, new_name } => ActionView::UpdateProjectName {
            old_name: new_name,
            new_name: old_name,
        },
        ActionView::UpdateProjectLanguages { old_source, new_source, old_target, new_target } =>
            ActionView::UpdateProjectLanguages {
            old_source: new_source,
            new_source: old_source,
            old_target: new_target,
            new_target: old_target,
        },
        ActionView::AddMarker { marker } => ActionView::RemoveMarker { marker },
        ActionView::RemoveMarker { marker } => ActionView::AddMarker { marker },
        ActionView::UpdatePointMarkerPosition { id, old_pos, new_pos } => ActionView::UpdatePointMarkerPosition {
            id,
            old_pos: new_pos,
            new_pos: old_pos,
        },
        ActionView::UpdateRectangleGeometry { id, old_geometry, new_geometry } => ActionView::UpdateRectangleGeometry {
            id,
            old_geometry: new_geometry,
            new_geometry: old_geometry,
        },
        ActionView::UpdateMarkerTranslation { id, old_trans, new_trans } => ActionView::UpdateMarkerTranslation {
            id,
            old_trans: new_trans,
            new_trans: old_trans,
        },
        ActionView::UpdateMarkerStyle { id, old_style, new_style } => ActionView::UpdateMarkerStyle {
            id,
            old_style: new_style,
            new_style: old_style,
        },
        ActionView::UpdateMarkerOrder { id, image_id, old_index, new_index } => ActionView::UpdateMarkerOrder {
            id,
            image_id,
            old_index: new_index,
            new_index: old_index,
        },
        ActionView::ReorderImages { old_order, new_order } => ActionView::ReorderImages {
            old_order: new_order,
            new_order: old_order,
        },
        ActionView::ConvertRectangleToPoint { marker_id, old_marker, new_marker } =>
            ActionView::ConvertPointToRectangle { marker_id, old_marker: new_marker, new_marker: old_marker },
        ActionView::ConvertPointToRectangle { marker_id, old_marker, new_marker } =>
            ActionView::ConvertRectangleToPoint { marker_id, old_marker: new_marker, new_marker: old_marker },
        _ => a,
    }
}

/// A project map after `f` is applied to project `pid` (if present).
pub open spec fn project_changed(
    ps: Map<ProjectId, ProjectView>,
    pid: ProjectId,
    p: ProjectView,
) -> Map<ProjectId, ProjectView> {
    if ps.contains_key(pid) {
        ps.insert(pid, p)
    } else {
        ps
    }
}

/// A page list with an image put back at `position` (at the end when the
/// list has become shorter).
pub open spec fn reinserted(ids: Seq<ImageId>, position: usize, id: ImageId) -> Seq<ImageId> {
    if position <= ids.len() {
        ids.insert(position as int, id)
    } else {
        ids.push(id)
    }
}

/// Puts an image back into a project's pages at a position; `Ok(false)`
/// when there is no such project.
pub fn insert_image_at_position(storage: &mut ProjectStorage, project_id: ProjectId, position: usize, image_id: ImageId) -> (r:
    CoreResult<bool>)
    ensures
        r == Ok::<bool, CoreError>(old(storage)@.contains_key(project_id)),
        final(storage)@ == project_changed(
            old(storage)@,
            project_id,
            ProjectView {
                image_ids: reinserted(old(storage)@[project_id].image_ids, position, image_id),
                ..old(storage)@[project_id]
            },
        ),
{
    match storage.remove(project_id) {
        Some(mut project) => {
            if position <= project.image_ids.len() {
                project.image_ids.insert(position, image_id);
            } else {
                project.image_ids.push(image_id);
            }
            storage.insert(project_id, project);
            assert(storage@ =~= old(storage)@.insert(
                project_id,
                ProjectView {
                    image_ids: reinserted(old(storage)@[project_id].image_ids, position, image_id),
                    ..old(storage)@[project_id]
                },
            ));
            Ok(true)
        },
        None => {
            assert(storage@ =~= old(storage)@);
            Ok(false)
        },
    }
}

/// Replaces a stored marker as a whole (its page lists stay); nothing
/// happens for an unknown marker.
fn replace_marker(markers: &mut crate::state::MarkerStorage, id: MarkerId, m: Marker)
    ensures
        final(markers)@ == (if old(markers)@.markers.contains_key(id) {
            with_marker(old(markers)@, id, m@)
        } else {
            old(markers)@
        }),
{
    match markers.take(id) {
        Some(_) => {
            markers.put(id, m);
            proof {
                lemma_remove_insert(old(markers)@.markers, id, m@);
            }
        },
        None => {
            assert(markers@.markers =~= old(markers)@.markers);
        },
    }
}

/// The stores and events after undoing `a` (when `a` is of a kind whose
/// effect does not depend on the current geometry) match what each step
/// promises.
pub open spec fn undone(
    o: CoreView,
    n: CoreView,
    oe: Seq<EventView>,
    ne: Seq<EventView>,
    pid: ProjectId,
    a: ActionView,
    r: ActionView,
) -> bool {
    match a {
        ActionView::UpdateProjectName { old_name, new_name } => {
            &&& n == CoreView {
                projects: project_changed(o.projects, pid, ProjectView { name: old_name, ..o.projects[pid] }),
                ..o
            }
            &&& ne == oe
            &&& r == swapped(a)
        },
        ActionView::UpdateProjectLanguages { old_source, old_target, .. } => {
            &&& n == CoreView {
                projects: project_changed(
                    o.projects,
                    pid,
                    ProjectView { source_language: old_source, target_language: old_target, ..o.projects[pid] },
                ),
                ..o
            }
            &&& ne == oe
            &&& r == swapped(a)
        },
        ActionView::AddMarker { marker } => {
            &&& n.projects == o.projects
            &&& r == swapped(a)
            &&& !o.markers.markers.contains_key(marker.id) ==> n == o && ne == oe
            &&& o.markers.markers.contains_key(marker.id) ==> {
                let m = o.markers.markers[marker.id];
                let removed = MarkerStorageView {
                    markers: o.markers.markers.remove(marker.id),
                    by_image: list_without(o.markers.by_image, m.image_id, marker.id),
                };
                &&& n.markers.by_image == removed.by_image
                &&& renumbered(removed, m.image_id, n.markers.markers)
                &&& image_updated(
                    o.images,
                    n.images,
                    m.image_id,
                    ImageView { marker_ids: without(o.images.images[m.image_id].marker_ids, marker.id), ..o.images.images[m.image_id] },
                )
                &&& ne == oe.push(EventView::MarkerRemovedFromImage(m.image_id, marker.id, m))
            }
        },
        ActionView::RemoveMarker { marker } => {
            &&& n.projects == o.projects
            &&& n.markers.markers == shifted_up(
                o.markers.markers,
                page_list(o.markers.by_image, marker.image_id),
                marker.image_index,
            ).insert(marker.id, marker)
            &&& n.markers.by_image == o.markers.by_image.insert(
                marker.image_id,
                page_list(o.markers.by_image, marker.image_id).push(marker.id),
            )
            &&& n.images == images_with_entries(o.images, seq![(marker.image_id, marker.id)])
            &&& ne == oe
            &&& r == swapped(a)
        },
        ActionView::UpdateRectangleGeometry { id, old_geometry, .. } => {
            let (x, y, w, h) = old_geometry;
            &&& n.projects == o.projects
            &&& n.images == o.images
            &&& changed_or_not(
                o.markers.markers.contains_key(id) && rect_of(o.markers.markers[id].geometry) is Some,
                o.markers,
                n.markers,
                with_marker(
                    o.markers,
                    id,
                    MarkerView { geometry: MarkerGeometry::Rectangle { x, y, width: w, height: h }, ..o.markers.markers[id] },
                ),
                oe,
                ne,
                EventView::RectangleGeometryUpdated {
                    id,
                    old_geometry: rect_of(o.markers.markers[id].geometry)->0,
                    new_geometry: old_geometry,
                },
                Ok::<bool, CoreError>(o.markers.markers.contains_key(id) && rect_of(o.markers.markers[id].geometry) is Some),
            )
            &&& r == swapped(a)
        },
        ActionView::UpdateMarkerTranslation { id, old_trans, .. } => {
            &&& n.projects == o.projects
            &&& n.images == o.images
            &&& changed_or_not(
                o.markers.markers.contains_key(id),
                o.markers,
                n.markers,
                with_marker(o.markers, id, MarkerView { translation: old_trans, ..o.markers.markers[id] }),
                oe,
                ne,
                EventView::MarkerTranslationUpdated {
                    id,
                    old_trans: o.markers.markers[id].translation,
                    new_trans: old_trans,
                },
                Ok::<bool, CoreError>(o.markers.markers.contains_key(id)),
            )
            &&& r == swapped(a)
        },
        ActionView::UpdateMarkerStyle { id, old_style, .. } => {
            &&& n.projects == o.projects
            &&& n.images == o.images
            &&& changed_or_not(
                o.markers.markers.contains_key(id),
                o.markers,
                n.markers,
                with_marker(o.markers, id, MarkerView { style: old_style, ..o.markers.markers[id] }),
                oe,
                ne,
                EventView::MarkerStyleUpdated { id, old_style: o.markers.markers[id].style, new_style: old_style },
                Ok::<bool, CoreError>(o.markers.markers.contains_key(id)),
            )
            &&& r == swapped(a)
        },
        ActionView::UpdateMarkerOrder { id, old_index, .. } => {
            &&& n.projects == o.projects
            &&& n.images == o.images
            &&& n.markers.by_image == o.markers.by_image
            &&& r == swapped(a)
            &&& (!o.markers.markers.contains_key(id) || o.markers.markers[id].image_index == old_index) ==> {
                &&& n.markers == o.markers
                &&& ne == oe
            }
            &&& (o.markers.markers.contains_key(id) && o.markers.markers[id].image_index != old_index) ==> {
                let m = o.markers.markers[id];
                &&& n.markers.markers == moved_in_order(
                    o.markers.markers,
                    page_list(o.markers.by_image, m.image_id),
                    id,
                    m.image_index,
                    old_index,
                )
                &&& ne == oe.push(
                    EventView::MarkerOrderMoved { id, image_id: m.image_id, old_index: m.image_index, new_index: old_index },
                )
            }
        },
        ActionView::ClearImageMarkers { image_id, markers } => {
            &&& n.projects == o.projects
            &&& exists|sorted: Seq<MarkerView>|
                #![trigger inserted_all(o.markers, sorted)]
                sorted_by_index(markers, sorted) && n.markers == inserted_all(o.markers, sorted)
            &&& n.images == images_with_entries(o.images, on_page(image_id, markers))
            &&& ne == oe
            &&& r == a
        },
        ActionView::AddImage { image, position } => {
            let id = image.metadata.id;
            let ids = page_list(o.markers.by_image, id);
            &&& n.markers.markers == o.markers.markers.remove_keys(ids.to_set())
            &&& n.markers.by_image == o.markers.by_image.remove(id)
            &&& n.projects == project_changed(
                o.projects,
                pid,
                ProjectView { image_ids: without(o.projects[pid].image_ids, id), ..o.projects[pid] },
            )
            &&& n.images.images == o.images.images.remove(id)
            &&& n.images.max_memory == o.images.max_memory
            &&& ne == oe
            &&& r == ActionView::RemoveImage { image, position, markers: first_present(ids, o.markers.markers) }
        },
        ActionView::RemoveImage { image, position, markers } => {
            let id = image.metadata.id;
            &&& n.projects == project_changed(
                o.projects,
                pid,
                ProjectView { image_ids: reinserted(o.projects[pid].image_ids, position, id), ..o.projects[pid] },
            )
            &&& n.markers == inserted_all(o.markers, markers)
            &&& n.images == images_with_entries(
                ImageStorageView {
                    images: o.images.images.insert(id, image),
                    current_memory: (o.images.current_memory + estimated_size_of(image)) as usize,
                    max_memory: o.images.max_memory,
                },
                own_pages(markers),
            )
            &&& ne == oe
            &&& r == ActionView::AddImage { image, position }
        },
        ActionView::ReorderImages { old_order, .. } => {
            &&& n == CoreView {
                projects: project_changed(o.projects, pid, ProjectView { image_ids: old_order, ..o.projects[pid] }),
                ..o
            }
            &&& ne == oe
            &&& r == swapped(a)
        },
        ActionView::ConvertRectangleToPoint { marker_id, old_marker, .. } => {
            &&& n == CoreView {
                markers: if o.markers.markers.contains_key(marker_id) {
                    with_marker(o.markers, marker_id, old_marker)
                } else {
                    o.markers
                },
                ..o
            }
            &&& ne == oe
            &&& r == swapped(a)
        },
        ActionView::ConvertPointToRectangle { marker_id, old_marker, .. } => {
            &&& n == CoreView {
                markers: if o.markers.markers.contains_key(marker_id) {
                    with_marker(o.markers, marker_id, old_marker)
                } else {
                    o.markers
                },
                ..o
            }
            &&& ne == oe
            &&& r == swapped(a)
        },
        // The full update and point-position kinds depend on the marker's
        // current geometry: see `geometry_undone`.
        _ => true,
    }
}

/// The stores and events after redoing `a`: redoing the clearing of a
/// page's markers clears them again (the markers taken, as at first, go
/// into the action returned); any other action is performed as undo
/// performs it (see `undone`).
pub open spec fn redone(
    o: CoreView,
    n: CoreView,
    oe: Seq<EventView>,
    ne: Seq<EventView>,
    pid: ProjectId,
    a: ActionView,
    r: ActionView,
) -> bool {
    match a {
        ActionView::ClearImageMarkers { image_id, .. } => {
            let ids = page_list(o.markers.by_image, image_id);
            &&& n.projects == o.projects
            &&& n.markers.markers == o.markers.markers.remove_keys(ids.to_set())
            &&& n.markers.by_image == o.markers.by_image.remove(image_id)
            &&& image_updated(
                o.images,
                n.images,
                image_id,
                ImageView { marker_ids: Seq::empty(), ..o.images.images[image_id] },
            )
            &&& ne == oe
            &&& r == ActionView::ClearImageMarkers { image_id, markers: first_present(ids, o.markers.markers) }
        },
        _ => undone(o, n, oe, ne, pid, a, r),
    }
}

/// Undoing (`redo` false) or redoing (`redo` true) `a`.
pub open spec fn step_done(
    o: CoreView,
    n: CoreView,
    oe: Seq<EventView>,
    ne: Seq<EventView>,
    pid: ProjectId,
    a: ActionView,
    r: ActionView,
    redo: bool,
) -> bool {
    if redo {
        redone(o, n, oe, ne, pid, a, r)
    } else {
        undone(o, n, oe, ne, pid, a, r)
    }
}

/// Undoing a full update or a point move, which depends on the marker's
/// current geometry: a point is moved (and, for a full update, given the
/// old text and style); a rectangle keeps its size and is moved to the old
/// corner.
pub open spec fn geometry_undone(
    o: CoreView,
    n: CoreView,
    oe: Seq<EventView>,
    ne: Seq<EventView>,
    a: ActionView,
    r: ActionView,
) -> bool {
    match a {
        ActionView::UpdateMarker { id, old_position, old_translation, old_style, .. } => {
            let cur = o.markers.markers[id];
            let (x, y) = old_position;
            let geometry = match cur.geometry {
                MarkerGeometry::Point { .. } => MarkerGeometry::Point { x, y },
                MarkerGeometry::Rectangle { width, height, .. } => MarkerGeometry::Rectangle { x, y, width, height },
            };
            &&& n.projects == o.projects
            &&& n.images == o.images
            &&& n.markers == with_marker(
                o.markers,
                id,
                MarkerView { geometry, translation: old_translation, style: old_style, ..cur },
            )
            &&& ne == oe.push(
                EventView::MarkerFullUpdated {
                    id,
                    old_position: anchor_of(cur.geometry),
                    new_position: old_position,
                    old_translation: cur.translation,
                    new_translation: old_translation,
                    old_style: cur.style,
                    new_style: old_style,
                },
            )
            &&& r == ActionView::UpdateMarker {
                id,
                old_position: anchor_of(cur.geometry),
                new_position: old_position,
                old_translation: cur.translation,
                new_translation: old_translation,
                old_style: cur.style,
                new_style: old_style,
            }
        },
        ActionView::UpdatePointMarkerPosition { id, old_pos, .. } => {
            let cur = o.markers.markers[id];
            let (x, y) = old_pos;
            &&& n.projects == o.projects
            &&& n.images == o.images
            &&& r == swapped(a)
            &&& match cur.geometry {
                MarkerGeometry::Point { .. } => {
                    &&& n.markers == with_marker(o.markers, id, MarkerView { geometry: MarkerGeometry::Point { x, y }, ..cur })
                    &&& ne == oe.push(
                        EventView::PointMarkerPositionUpdated { id, old_pos: anchor_of(cur.geometry), new_pos: old_pos },
                    )
                },
                MarkerGeometry::Rectangle { x: cx, y: cy, width, height } => {
                    &&& n.markers == with_marker(
                        o.markers,
                        id,
                        MarkerView { geometry: MarkerGeometry::Rectangle { x, y, width, height }, ..cur },
                    )
                    &&& ne == oe.push(
                        EventView::RectangleGeometryUpdated {
                            id,
                            old_geometry: (cx, cy, width, height),
                            new_geometry: (x, y, width, height),
                        },
                    )
                },
            }
        },
        _ => true,
    }
}

/// What undoing `a` needs of the stores: the marker of a full update or a
/// point move exists; a marker put back fits its page's indices; a page
/// removed or put back fits the memory estimate.
pub open spec fn undo_requires(o: CoreView, a: ActionView) -> bool {
    match a {
        ActionView::UpdateMarker { id, .. } => o.markers.markers.contains_key(id),
        ActionView::UpdatePointMarkerPosition { id, .. } => o.markers.markers.contains_key(id),
        ActionView::RemoveMarker { marker } => forall|k: MarkerId|
            #![trigger o.markers.markers[k]]
            o.markers.markers.contains_key(k) && o.markers.markers[k].image_index >= marker.image_index
                ==> o.markers.markers[k].image_index + crate::marker::occurrences(
                page_list(o.markers.by_image, marker.image_id),
                k,
            ) <= u32::MAX,
        ActionView::AddImage { image, .. } => o.images.images.contains_key(image.metadata.id)
            ==> estimated_size_of(o.images.images[image.metadata.id]) <= usize::MAX,
        ActionView::RemoveImage { image, .. } => o.images.current_memory + estimated_size_of(image) <= usize::MAX,
        _ => true,
    }
}

/// Reverses a recorded action on the stores and returns the action that
/// reverses this reversal (with the same identifier), which goes onto the
/// other history. Kinds that are not reversible are returned unchanged.
pub fn perform_undo(state: &mut AppState, events: &mut Vec<DomainEvent>, action: &UndoRedoAction) -> (r: CoreResult<
    UndoRedoAction,
>)
    requires
        undo_requires(core_of(*old(state)), action@.action_type),
    ensures
        match r {
            Ok(rev) => {
                &&& rev.id == action.id
                &&& rev.project_id == action.project_id
                &&& undone(
                    core_of(*old(state)),
                    core_of(*final(state)),
                    event_views(old(events)@),
                    event_views(final(events)@),
                    action.project_id,
                    action@.action_type,
                    rev@.action_type,
                )
                &&& geometry_undone(
                    core_of(*old(state)),
                    core_of(*final(state)),
                    event_views(old(events)@),
                    event_views(final(events)@),
                    action@.action_type,
                    rev@.action_type,
                )
                &&& action@.action_type is UpdateImage ==> {
                    &&& rev@ == action@
                    &&& core_of(*final(state)) == core_of(*old(state))
                    &&& final(events)@ == old(events)@
                }
            },
            Err(_) => false,
        },
        final(state).project_ids == old(state).project_ids,
        final(state).image_ids == old(state).image_ids,
        final(state).marker_ids == old(state).marker_ids,
        final(state).thumbnails@ == old(state).thumbnails@,
        final(state).bunny_cache@ == old(state).bunny_cache@,
{
    let svc = MarkerService;
    let pid = action.project_id;
    match &action.action_type {
        ActionType::UpdateProjectName { old_name, new_name } => {
            update_project_name_storage(&mut state.projects, pid, old_name.clone())?;
            Ok(
                UndoRedoAction::with_id(
                    action.id,
                    ActionType::UpdateProjectName { old_name: new_name.clone(), new_name: old_name.clone() },
                    pid,
                ),
            )
        },
        ActionType::UpdateProjectLanguages { old_source, new_source, old_target, new_target } => {
            update_project_languages_storage(&mut state.projects, pid, *old_source, *old_target)?;
            Ok(
                UndoRedoAction::with_id(
                    action.id,
                    ActionType::UpdateProjectLanguages {
                        old_source: *new_source,
                        new_source: *old_source,
                        old_target: *new_target,
                        new_target: *old_target,
                    },
                    pid,
                ),
            )
        },
        ActionType::AddMarker { marker } => {
            svc.remove_marker_with_undo(&mut state.markers, &mut state.images, events, marker.id)?;
            Ok(UndoRedoAction::with_id(action.id, ActionType::RemoveMarker { marker: marker.clone() }, pid))
        },
        ActionType::RemoveMarker { marker } => {
            insert_marker_at_index(&mut state.markers, marker.clone())?;
            let ghost before = state.images@;
            add_marker_to_image_storage(&mut state.images, marker.image_id, marker.id)?;
            proof {
                let e = seq![(marker.image_id, marker.id)];
                assert(e.drop_last() =~= Seq::<(ImageId, MarkerId)>::empty());
                assert(images_with_entries(before, e.drop_last()) == before);
                assert(e.last() == (marker.image_id, marker.id));
                if before.images.contains_key(marker.image_id) {
                    lemma_remove_insert(before.images, marker.image_id, state.images@.images[marker.image_id]);
                }
                assert(state.images@ == images_with_entries(before, e));
            }
            Ok(UndoRedoAction::with_id(action.id, ActionType::AddMarker { marker: marker.clone() }, pid))
        },
        ActionType::UpdateMarker { id, old_position, old_translation, old_style, .. } => {
            let current = state.markers.get(*id).unwrap().clone();
            let current_pos = match current.geometry {
                MarkerGeometry::Point { x, y } => (x, y),
                MarkerGeometry::Rectangle { x, y, .. } => (x, y),
            };
            match current.geometry {
                MarkerGeometry::Point { .. } => {
                    svc.update_point_marker_with_undo(
                        &mut state.markers,
                        events,
                        *id,
                        old_position.0,
                        old_position.1,
                        old_translation.clone(),
                        *old_style,
                    )?;
                },
                MarkerGeometry::Rectangle { width, height, .. } => {
                    svc.update_rectangle_marker_with_undo(
                        &mut state.markers,
                        events,
                        *id,
                        old_position.0,
                        old_position.1,
                        width,
                        height,
                        old_translation.clone(),
                        *old_style,
                    )?;
                },
            }
            Ok(
                UndoRedoAction::with_id(
                    action.id,
                    ActionType::UpdateMarker {
                        id: *id,
                        old_position: current_pos,
                        new_position: *old_position,
                        old_translation: current.translation,
                        new_translation: old_translation.clone(),
                        old_style: current.style,
                        new_style: *old_style,
                    },
                    pid,
                ),
            )
        },
        ActionType::UpdatePointMarkerPosition { id, old_pos, new_pos } => {
            let current = state.markers.get(*id).unwrap().clone();
            match current.geometry {
                MarkerGeometry::Point { .. } => {
                    svc.update_point_marker_position_with_undo(&mut state.markers, events, *id, old_pos.0, old_pos.1)?;
                },
                MarkerGeometry::Rectangle { width, height, .. } => {
                    svc.update_rectangle_marker_geometry_with_undo(
                        &mut state.markers,
                        events,
                        *id,
                        old_pos.0,
                        old_pos.1,
                        width,
                        height,
                    )?;
                },
            }
            Ok(
                UndoRedoAction::with_id(
                    action.id,
                    ActionType::UpdatePointMarkerPosition { id: *id, old_pos: *new_pos, new_pos: *old_pos },
                    pid,
                ),
            )
        },
        ActionType::UpdateRectangleGeometry { id, old_geometry, new_geometry } => {
            svc.update_rectangle_marker_geometry_with_undo(
                &mut state.markers,
                events,
                *id,
                old_geometry.0,
                old_geometry.1,
                old_geometry.2,
                old_geometry.3,
            )?;
            Ok(
                UndoRedoAction::with_id(
                    action.id,
                    ActionType::UpdateRectangleGeometry { id: *id, old_geometry: *new_geometry, new_geometry: *old_geometry },
                    pid,
                ),
            )
        },
        ActionType::UpdateMarkerTranslation { id, old_trans, new_trans } => {
            svc.update_marker_translation_with_undo(&mut state.markers, events, *id, old_trans.clone())?;
            Ok(
                UndoRedoAction::with_id(
                    action.id,
                    ActionType::UpdateMarkerTranslation { id: *id, old_trans: new_trans.clone(), new_trans: old_trans.clone() },
                    pid,
                ),
            )
        },
        ActionType::UpdateMarkerStyle { id, old_style, new_style } => {
            svc.update_marker_style_with_undo(&mut state.markers, events, *id, *old_style)?;
            Ok(
                UndoRedoAction::with_id(
                    action.id,
                    ActionType::UpdateMarkerStyle { id: *id, old_style: *new_style, new_style: *old_style },
                    pid,
                ),
            )
        },
        ActionType::UpdateMarkerOrder { id, image_id, old_index, new_index } => {
            svc.move_marker_order_with_undo(&mut state.markers, events, *id, *old_index)?;
            Ok(
                UndoRedoAction::with_id(
                    action.id,
                    ActionType::UpdateMarkerOrder {
                        id: *id,
                        image_id: *image_id,
                        old_index: *new_index,
                        new_index: *old_index,
                    },
                    pid,
                ),
            )
        },
        ActionType::ClearImageMarkers { image_id, markers } => {
            let mut sorted = clone_markers(markers);
            let ghost unsorted = sorted@;
            sort_markers_by_index(&mut sorted);
            let ghost sv = marker_views(sorted@);
            proof {
                lemma_sorted_views(unsorted, sorted@);
                assert(unsorted.map_values(|m: Marker| m@) == marker_views(markers@));
                assert(sorted_by_index(marker_views(markers@), sv));
            }
            let mut i: usize = 0;
            while i < sorted.len()
                invariant
                    i <= sorted@.len(),
                    sv == marker_views(sorted@),
                    state.markers@ == inserted_all(old(state).markers@, sv.take(i as int)),
                    state.projects@ == old(state).projects@,
                    state.images@ == old(state).images@,
                    events@ == old(events)@,
                    state.project_ids == old(state).project_ids,
                    state.image_ids == old(state).image_ids,
                    state.marker_ids == old(state).marker_ids,
                    state.thumbnails@ == old(state).thumbnails@,
                    state.bunny_cache@ == old(state).bunny_cache@,
                decreases sorted@.len() - i,
            {
                proof {
                    assert(sv.take(i as int + 1).drop_last() =~= sv.take(i as int));
                }
                state.markers.insert_with_image(sorted[i].clone())?;
                i = i + 1;
            }
            assert(sv.take(sorted@.len() as int) =~= sv);
            let ghost mv = marker_views(markers@);
            assert(sv.len() == mv.len());
            let mut j: usize = 0;
            while j < markers.len()
                invariant
                    j <= markers@.len(),
                    mv == marker_views(markers@),
                    state.images@ == images_with_entries(old(state).images@, on_page(*image_id, mv).take(j as int)),
                    state.projects@ == old(state).projects@,
                    state.markers@ == inserted_all(old(state).markers@, sv),
                    sv.len() == mv.len(),
                    events@ == old(events)@,
                    state.project_ids == old(state).project_ids,
                    state.image_ids == old(state).image_ids,
                    state.marker_ids == old(state).marker_ids,
                    state.thumbnails@ == old(state).thumbnails@,
                    state.bunny_cache@ == old(state).bunny_cache@,
                decreases markers@.len() - j,
            {
                proof {
                    assert(on_page(*image_id, mv).take(j as int + 1).drop_last() =~= on_page(*image_id, mv).take(j as int));
                }
                let ghost before = state.images@;
                add_marker_to_image_storage(&mut state.images, *image_id, markers[j].id)?;
                proof {
                    if before.images.contains_key(*image_id) {
                        lemma_remove_insert(before.images, *image_id, state.images@.images[*image_id]);
                    }
                    assert(state.images@ == images_with_entries(
                        old(state).images@,
                        on_page(*image_id, mv).take(j as int + 1),
                    ));
                }
                j = j + 1;
            }
            assert(on_page(*image_id, mv).take(markers@.len() as int) =~= on_page(*image_id, mv));
            Ok(
                UndoRedoAction::with_id(
                    action.id,
                    ActionType::ClearImageMarkers { image_id: *image_id, markers: clone_markers(markers) },
                    pid,
                ),
            )
        },
        ActionType::AddImage { image, position } => {
            let image_id = image.metadata.id;
            let taken = svc.take_image_markers(&mut state.markers, &mut state.images, image_id)?;
            let ghost after_take = state.images@;
            remove_image_from_project_storage(&mut state.projects, pid, image_id)?;
            proof {
                assert(after_take.images.contains_key(image_id) ==> estimated_size_of(after_take.images[image_id]) <= usize::MAX);
            }
            let _ = state.images.remove(image_id);
            proof {
                assert(state.images@.images =~= old(state).images@.images.remove(image_id));
            }
            Ok(
                UndoRedoAction::with_id(
                    action.id,
                    ActionType::RemoveImage { image: image.clone(), position: *position, markers: taken },
                    pid,
                ),
            )
        },
        ActionType::RemoveImage { image, position, markers } => {
            let image_id = image.metadata.id;
            state.images.insert(image_id, image.clone())?;
            insert_image_at_position(&mut state.projects, pid, *position, image_id)?;
            svc.restore_image_markers(&mut state.markers, &mut state.images, clone_markers(markers))?;
            Ok(
                UndoRedoAction::with_id(
                    action.id,
                    ActionType::AddImage { image: image.clone(), position: *position },
                    pid,
                ),
            )
        },
        ActionType::ReorderImages { old_order, new_order } => {
            reorder_project_images_storage(&mut state.projects, pid, old_order.clone())?;
            Ok(
                UndoRedoAction::with_id(
                    action.id,
                    ActionType::ReorderImages { old_order: new_order.clone(), new_order: old_order.clone() },
                    pid,
                ),
            )
        },
        ActionType::ConvertRectangleToPoint { marker_id, old_marker, new_marker } => {
            replace_marker(&mut state.markers, *marker_id, old_marker.clone());
            Ok(
                UndoRedoAction::with_id(
                    action.id,
                    ActionType::ConvertPointToRectangle {
                        marker_id: *marker_id,
                        old_marker: new_marker.clone(),
                        new_marker: old_marker.clone(),
                    },
                    pid,
                ),
            )
        },
        ActionType::ConvertPointToRectangle { marker_id, old_marker, new_marker } => {
            replace_marker(&mut state.markers, *marker_id, old_marker.clone());
            Ok(
                UndoRedoAction::with_id(
                    action.id,
                    ActionType::ConvertRectangleToPoint {
                        marker_id: *marker_id,
                        old_marker: new_marker.clone(),
                        new_marker: old_marker.clone(),
                    },
                    pid,
                ),
            )
        },
        ActionType::UpdateImage { .. } => Ok(action.clone()),
    }
}

/// Redo performs the recorded action again: a cleared page is cleared
/// again; any other (reversed) action is performed the way undo performs it.
pub fn perform_redo(state: &mut AppState, events: &mut Vec<DomainEvent>, action: &UndoRedoAction) -> (r: CoreResult<
    UndoRedoAction,
>)
    requires
        undo_requires(core_of(*old(state)), action@.action_type),
    ensures
        match r {
            Ok(rev) => {
                &&& rev.id == action.id
                &&& rev.project_id == action.project_id
                &&& redone(
                    core_of(*old(state)),
                    core_of(*final(state)),
                    event_views(old(events)@),
                    event_views(final(events)@),
                    action.project_id,
                    action@.action_type,
                    rev@.action_type,
                )
                &&& geometry_undone(
                    core_of(*old(state)),
                    core_of(*final(state)),
                    event_views(old(events)@),
                    event_views(final(events)@),
                    action@.action_type,
                    rev@.action_type,
                )
                &&& action@.action_type is UpdateImage ==> {
                    &&& rev@ == action@
                    &&& core_of(*final(state)) == core_of(*old(state))
                    &&& final(events)@ == old(events)@
                }
            },
            Err(_) => false,
        },
        final(state).project_ids == old(state).project_ids,
        final(state).image_ids == old(state).image_ids,
        final(state).marker_ids == old(state).marker_ids,
        final(state).thumbnails@ == old(state).thumbnails@,
        final(state).bunny_cache@ == old(state).bunny_cache@,
{
    match &action.action_type {
        ActionType::ClearImageMarkers { image_id, .. } => {
            let svc = MarkerService;
            let taken = svc.take_image_markers(&mut state.markers, &mut state.images, *image_id)?;
            Ok(
                UndoRedoAction::with_id(
                    action.id,
                    ActionType::ClearImageMarkers { image_id: *image_id, markers: taken },
                    action.project_id,
                ),
            )
        },
        _ => perform_undo(state, events, action),
    }
}

/// Reversing an action whose reversal does not depend on the stores, and
/// then reversing the result, gives the action back.
pub proof fn law_reversal_is_an_involution(a: ActionView)
    requires
        !(a is AddImage || a is RemoveImage || a is UpdateMarker),
    ensures
        swapped(swapped(a)) == a,
{
}

/// Undoing a translation change brings the stores back: after a marker's
/// translation was changed (the change that the recorded action describes),
/// undoing that action restores every store.
pub proof fn law_undo_restores_translation(
    o: CoreView,
    n: CoreView,
    oe: Seq<EventView>,
    ne: Seq<EventView>,
    pid: ProjectId,
    id: MarkerId,
    t: Seq<char>,
    r: ActionView,
)
    requires
        o.markers.markers.contains_key(id),
        undone(
            CoreView {
                markers: with_marker(o.markers, id, MarkerView { translation: t, ..o.markers.markers[id] }),
                ..o
            },
            n,
            oe,
            ne,
            pid,
            ActionView::UpdateMarkerTranslation { id, old_trans: o.markers.markers[id].translation, new_trans: t },
            r,
        ),
    ensures
        n == o,
{
    assert(n.markers.markers =~= o.markers.markers);
}

/// Undoing a style change brings the stores back.
pub proof fn law_undo_restores_style(
    o: CoreView,
    n: CoreView,
    oe: Seq<EventView>,
    ne: Seq<EventView>,
    pid: ProjectId,
    id: MarkerId,
    style: MarkerStyle,
    r: ActionView,
)
    requires
        o.markers.markers.contains_key(id),
        undone(
            CoreView { markers: with_marker(o.markers, id, MarkerView { style, ..o.markers.markers[id] }), ..o },
            n,
            oe,
            ne,
            pid,
            ActionView::UpdateMarkerStyle { id, old_style: o.markers.markers[id].style, new_style: style },
            r,
        ),
    ensures
        n == o,
{
    assert(n.markers.markers =~= o.markers.markers);
}

/// Undoing a move of a point marker brings the stores back.
pub proof fn law_undo_restores_point_position(
    o: CoreView,
    n: CoreView,
    oe: Seq<EventView>,
    ne: Seq<EventView>,
    id: MarkerId,
    x: u64,
    y: u64,
    r: ActionView,
)
    requires
        o.markers.markers.contains_key(id),
        point_of(o.markers.markers[id].geometry) is Some,
        geometry_undone(
            CoreView {
                markers: with_marker(
                    o.markers,
                    id,
                    MarkerView { geometry: MarkerGeometry::Point { x, y }, ..o.markers.markers[id] },
                ),
                ..o
            },
            n,
            oe,
            ne,
            ActionView::UpdatePointMarkerPosition {
                id,
                old_pos: anchor_of(o.markers.markers[id].geometry),
                new_pos: (x, y),
            },
            r,
        ),
    ensures
        n == o,
{
    assert(n.markers.markers =~= o.markers.markers);
}

/// Undoing a rename of a project brings the stores back.
pub proof fn law_undo_restores_project_name(
    o: CoreView,
    n: CoreView,
    oe: Seq<EventView>,
    ne: Seq<EventView>,
    pid: ProjectId,
    name: Seq<char>,
    r: ActionView,
)
    requires
        o.projects.contains_key(pid),
        undone(
            CoreView { projects: o.projects.insert(pid, ProjectView { name, ..o.projects[pid] }), ..o },
            n,
            oe,
            ne,
            pid,
            ActionView::UpdateProjectName { old_name: o.projects[pid].name, new_name: name },
            r,
        ),
    ensures
        n == o,
{
    assert(n.projects =~= o.projects);
}

/// Undoing a resize or move of a rectangle marker brings the stores back.
pub proof fn law_undo_restores_rectangle_geometry(
    o: CoreView,
    n: CoreView,
    oe: Seq<EventView>,
    ne: Seq<EventView>,
    pid: ProjectId,
    id: MarkerId,
    g: (u64, u64, u64, u64),
    r: ActionView,
)
    requires
        o.markers.markers.contains_key(id),
        rect_of(o.markers.markers[id].geometry) is Some,
        undone(
            CoreView {
                markers: with_marker(
                    o.markers,
                    id,
                    MarkerView {
                        geometry: MarkerGeometry::Rectangle { x: g.0, y: g.1, width: g.2, height: g.3 },
                        ..o.markers.markers[id]
                    },
                ),
                ..o
            },
            n,
            oe,
            ne,
            pid,
            ActionView::UpdateRectangleGeometry {
                id,
                old_geometry: rect_of(o.markers.markers[id].geometry)->0,
                new_geometry: g,
            },
            r,
        ),
    ensures
        n == o,
{
    assert(n.markers.markers =~= o.markers.markers);
}

/// Undoing a full update of a point marker (its position, text and
/// layout) brings the stores back.
pub proof fn law_undo_restores_point_marker(
    o: CoreView,
    n: CoreView,
    oe: Seq<EventView>,
    ne: Seq<EventView>,
    id: MarkerId,
    pos: (u64, u64),
    t: Seq<char>,
    style: MarkerStyle,
    r: ActionView,
)
    requires
        o.markers.markers.contains_key(id),
        point_of(o.markers.markers[id].geometry) is Some,
        geometry_undone(
            CoreView {
                markers: with_marker(
                    o.markers,
                    id,
                    MarkerView {
                        geometry: MarkerGeometry::Point { x: pos.0, y: pos.1 },
                        translation: t,
                        style,
                        ..o.markers.markers[id]
                    },
                ),
                ..o
            },
            n,
            oe,
            ne,
            ActionView::UpdateMarker {
                id,
                old_position: anchor_of(o.markers.markers[id].geometry),
                new_position: pos,
                old_translation: o.markers.markers[id].translation,
                new_translation: t,
                old_style: o.markers.markers[id].style,
                new_style: style,
            },
            r,
        ),
    ensures
        n == o,
{
    assert(n.markers.markers =~= o.markers.markers);
}

/// Undoing a change of a project's languages brings the stores back.
pub proof fn law_undo_restores_project_languages(
    o: CoreView,
    n: CoreView,
    oe: Seq<EventView>,
    ne: Seq<EventView>,
    pid: ProjectId,
    source: crate::language::Language,
    target: crate::language::Language,
    r: ActionView,
)
    requires
        o.projects.contains_key(pid),
        undone(
            CoreView {
                projects: o.projects.insert(
                    pid,
                    ProjectView { source_language: source, target_language: target, ..o.projects[pid] },
                ),
                ..o
            },
            n,
            oe,
            ne,
            pid,
            ActionView::UpdateProjectLanguages {
                old_source: o.projects[pid].source_language,
                old_target: o.projects[pid].target_language,
                new_source: source,
                new_target: target,
            },
            r,
        ),
    ensures
        n == o,
{
    assert(n.projects =~= o.projects);
}

/// Undoing a reordering of a project's pages brings the stores back.
pub proof fn law_undo_restores_page_order(
    o: CoreView,
    n: CoreView,
    oe: Seq<EventView>,
    ne: Seq<EventView>,
    pid: ProjectId,
    order: Seq<ImageId>,
    r: ActionView,
)
    requires
        o.projects.contains_key(pid),
        undone(
            CoreView { projects: o.projects.insert(pid, ProjectView { image_ids: order, ..o.projects[pid] }), ..o },
            n,
            oe,
            ne,
            pid,
            ActionView::ReorderImages { old_order: o.projects[pid].image_ids, new_order: order },
            r,
        ),
    ensures
        n == o,
{
    assert(n.projects =~= o.projects);
}

/// Undoing the conversion of a marker to a rectangle (or to a point)
/// brings the stores back.
pub proof fn law_undo_restores_converted_marker(
    o: CoreView,
    n: CoreView,
    oe: Seq<EventView>,
    ne: Seq<EventView>,
    pid: ProjectId,
    id: MarkerId,
    converted: MarkerView,
    to_rectangle: bool,
    r: ActionView,
)
    requires
        o.markers.markers.contains_key(id),
        undone(
            CoreView { markers: with_marker(o.markers, id, converted), ..o },
            n,
            oe,
            ne,
            pid,
            if to_rectangle {
                ActionView::ConvertPointToRectangle { marker_id: id, old_marker: o.markers.markers[id], new_marker: converted }
            } else {
                ActionView::ConvertRectangleToPoint { marker_id: id, old_marker: o.markers.markers[id], new_marker: converted }
            },
            r,
        ),
    ensures
        n == o,
{
    assert(n.markers.markers =~= o.markers.markers);
}

/// Undoing the addition of a marker takes it out of the store and out of
/// its page's list.
pub proof fn law_undo_removes_added_marker(
    o: CoreView,
    n: CoreView,
    oe: Seq<EventView>,
    ne: Seq<EventView>,
    pid: ProjectId,
    m: MarkerView,
    r: ActionView,
)
    requires
        o.markers.markers.contains_key(m.id),
        undone(o, n, oe, ne, pid, ActionView::AddMarker { marker: m }, r),
    ensures
        !n.markers.markers.contains_key(m.id),
        !page_list(n.markers.by_image, o.markers.markers[m.id].image_id).contains(m.id),
        n.projects == o.projects,
{
    let img = o.markers.markers[m.id].image_id;
    crate::collections::law_dropped_marker_is_unlisted(page_list(o.markers.by_image, img), m.id);
    let removed = MarkerStorageView {
        markers: o.markers.markers.remove(m.id),
        by_image: list_without(o.markers.by_image, img, m.id),
    };
    let sorted = choose|sorted: Seq<(MarkerId, u32)>|
        stably_sorted(index_pairs(page_list(removed.by_image, img), removed.markers), sorted, |p: (MarkerId, u32)| pair_index(p))
            && n.markers.markers == numbered_in_order(removed.markers, sorted);
    lemma_numbering_keeps_keys(removed.markers, sorted);
}

/// Lemma: renumbering markers keeps the set of stored identifiers.
pub proof fn lemma_numbering_keeps_keys(ms: Map<MarkerId, MarkerView>, order: Seq<(MarkerId, u32)>)
    ensures
        numbered_in_order(ms, order).dom() == ms.dom(),
    decreases order.len(),
{
    if order.len() > 0 {
        lemma_numbering_keeps_keys(ms, order.drop_last());
        assert(numbered_in_order(ms, order).dom() =~= ms.dom());
    }
}

} // verus!
