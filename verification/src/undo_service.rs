use vstd::prelude::*;
use crate::error::{CoreError, CoreResult};
use crate::ids::{ImageId, MarkerId, ProjectId};
use crate::marker::{MarkerView, get_marker_storage};
use crate::project::{ProjectView, find_project_by_image_storage, least_lister};
use crate::state::{AppState, MarkerStorage, ProjectStorage};
use crate::events::{DomainEvent, EventView, event_views, marker_views};
use crate::undo_actions::{ActionType, ActionView, UndoRedoAction, UndoRedoActionView, action_name, clone_markers};
use crate::undo_stack::{UndoRedoStack, UndoRedoStackView, stack_of, top, after_push_action, after_pop_undo,
    after_pop_redo, after_push_redo, after_push_undo, with_stack, empty_stack};
use crate::undo_performer::{CoreView, core_of, perform_undo, perform_redo, undone, redone, step_done, geometry_undone, undo_requires};
use crate::text::string_of;

verus! {

/// The answer to an undo or redo request: whether it went through, and the
/// page and marker it concerned, if any.
#[derive(Debug, Clone, Copy, PartialEq, Eq, Structural)]
pub struct UndoRedoResult {
    pub success: bool,
    pub image_id: Option<u32>,
    pub marker_id: Option<u32>,
}

/// What the front end is told after a project's history changes.
#[derive(Debug)]
pub struct UndoRedoState {
    pub project_id: ProjectId,
    pub undo_action_name: String,
    pub can_redo: bool,
    pub current_commit_id: Option<uuid::Uuid>,
}

/// The abstract value of a history notice.
pub struct UndoRedoStateView {
    pub project_id: ProjectId,
    pub undo_action_name: Seq<char>,
    pub can_redo: bool,
    pub current_commit_id: Option<uuid::Uuid>,
}

impl View for UndoRedoState {
    type V = UndoRedoStateView;

    open spec fn view(&self) -> UndoRedoStateView {
        UndoRedoStateView {
            project_id: self.project_id,
            undo_action_name: self.undo_action_name@,
            can_redo: self.can_redo,
            current_commit_id: self.current_commit_id,
        }
    }
}

/// The notice for a project given what can be undone and redone: the name
/// of the next undo (or "none"), whether there is a redo, the identifier of
/// the next undo.
pub open spec fn notice_of(
    s: UndoRedoStackView,
    pid: ProjectId,
    can_undo: bool,
    can_redo: bool,
    commit: Option<uuid::Uuid>,
) -> UndoRedoStateView {
    UndoRedoStateView {
        project_id: pid,
        undo_action_name: if can_undo && top(stack_of(s, pid).undo) is Some {
            action_name(top(stack_of(s, pid).undo)->0.action_type)
        } else {
            "none"@
        },
        can_redo,
        current_commit_id: commit,
    }
}

/// The notice that describes a project's history as it is.
pub open spec fn current_notice(s: UndoRedoStackView, pid: ProjectId) -> UndoRedoStateView {
    notice_of(
        s,
        pid,
        stack_of(s, pid).undo.len() > 0,
        stack_of(s, pid).redo.len() > 0,
        match top(stack_of(s, pid).undo) {
            Some(a) => Some(a.id),
            None => None,
        },
    )
}

/// The views of the notices.
pub open spec fn notice_views(v: Seq<UndoRedoState>) -> Seq<UndoRedoStateView> {
    v.map_values(|n: UndoRedoState| n@)
}

/// The page and marker an action concerns (a marker's page is looked up in
/// the store; project-wide actions concern neither).
pub open spec fn affected_location(a: ActionView, ms: Map<MarkerId, MarkerView>) -> (Option<ImageId>, Option<MarkerId>) {
    match a {
        ActionView::UpdateProjectName { .. } => (None, None),
        ActionView::UpdateProjectLanguages { .. } => (None, None),
        ActionView::AddImage { image, .. } => (Some(image.metadata.id), None),
        ActionView::RemoveImage { image, .. } => (Some(image.metadata.id), None),
        ActionView::ReorderImages { .. } => (None, None),
        ActionView::UpdateImage { id, .. } => (Some(id), None),
        ActionView::AddMarker { marker } => (Some(marker.image_id), Some(marker.id)),
        ActionView::RemoveMarker { marker } => (Some(marker.image_id), Some(marker.id)),
        ActionView::UpdateMarker { id, .. } => marker_location(id, ms),
        ActionView::UpdatePointMarkerPosition { id, .. } => marker_location(id, ms),
        ActionView::UpdateRectangleGeometry { id, .. } => marker_location(id, ms),
        ActionView::UpdateMarkerTranslation { id, .. } => marker_location(id, ms),
        ActionView::UpdateMarkerStyle { id, .. } => marker_location(id, ms),
        ActionView::UpdateMarkerOrder { id, .. } => marker_location(id, ms),
        ActionView::ClearImageMarkers { image_id, .. } => (Some(image_id), None),
        ActionView::ConvertRectangleToPoint { old_marker, .. } => (Some(old_marker.image_id), Some(old_marker.id)),
        ActionView::ConvertPointToRectangle { old_marker, .. } => (Some(old_marker.image_id), Some(old_marker.id)),
    }
}

/// A marker with its page, when the marker is stored.
pub open spec fn marker_location(id: MarkerId, ms: Map<MarkerId, MarkerView>) -> (Option<ImageId>, Option<MarkerId>) {
    if ms.contains_key(id) {
        (Some(ms[id].image_id), Some(id))
    } else {
        (None, Some(id))
    }
}

/// The page whose project an action belongs to, if the action names one.
pub open spec fn action_image(a: ActionView, ms: Map<MarkerId, MarkerView>) -> Option<ImageId> {
    match a {
        ActionView::UpdateProjectName { .. } => None,
        ActionView::UpdateProjectLanguages { .. } => None,
        ActionView::ReorderImages { .. } => None,
        _ => affected_location(a, ms).0,
    }
}

fn marker_location_exec(markers: &MarkerStorage, id: MarkerId) -> (r: (Option<ImageId>, Option<MarkerId>))
    ensures
        r == marker_location(id, markers@.markers),
{
    match markers.get(id) {
        Some(m) => (Some(m.image_id), Some(id)),
        None => (None, Some(id)),
    }
}

impl UndoRedoAction {
    /// The page and marker the action concerns.
    pub fn get_affected_location(&self, markers: &MarkerStorage) -> (r: (Option<ImageId>, Option<MarkerId>))
        ensures
            r == affected_location(self@.action_type, markers@.markers),
    {
        match &self.action_type {
            ActionType::UpdateProjectName { .. } | ActionType::UpdateProjectLanguages { .. } => (None, None),
            ActionType::AddImage { image, .. } => (Some(image.metadata.id), None),
            ActionType::RemoveImage { image, .. } => (Some(image.metadata.id), None),
            ActionType::ReorderImages { .. } => (None, None),
            ActionType::UpdateImage { id, .. } => (Some(*id), None),
            ActionType::AddMarker { marker } => (Some(marker.image_id), Some(marker.id)),
            ActionType::RemoveMarker { marker } => (Some(marker.image_id), Some(marker.id)),
            ActionType::UpdateMarker { id, .. } => marker_location_exec(markers, *id),
            ActionType::UpdatePointMarkerPosition { id, .. } => marker_location_exec(markers, *id),
            ActionType::UpdateRectangleGeometry { id, .. } => marker_location_exec(markers, *id),
            ActionType::UpdateMarkerTranslation { id, .. } => marker_location_exec(markers, *id),
            ActionType::UpdateMarkerStyle { id, .. } => marker_location_exec(markers, *id),
            ActionType::UpdateMarkerOrder { id, .. } => marker_location_exec(markers, *id),
            ActionType::ClearImageMarkers { image_id, .. } => (Some(*image_id), None),
            ActionType::ConvertRectangleToPoint { old_marker, .. } => (Some(old_marker.image_id), Some(old_marker.id)),
            ActionType::ConvertPointToRectangle { old_marker, .. } => (Some(old_marker.image_id), Some(old_marker.id)),
        }
    }

    /// The project of the page an action concerns: `None` for project-wide
    /// actions, for a marker that is gone, or when no project lists the
    /// page; otherwise a project that lists it.
    pub fn get_project_id_from_action(action_type: &ActionType, markers: &MarkerStorage, projects: &ProjectStorage) -> (r:
        CoreResult<Option<ProjectId>>)
        ensures
            match r {
                Ok(Some(pid)) => action_image(action_type@, markers@.markers) matches Some(img) && projects@.contains_key(
                    pid,
                ) && projects@[pid].image_ids.contains(img),
                Ok(None) => action_image(action_type@, markers@.markers) matches Some(img) ==> forall|pid: ProjectId|
                    #[trigger] projects@.contains_key(pid) ==> !projects@[pid].image_ids.contains(img),
                Err(_) => false,
            },
    {
        let image_id = match action_type {
            ActionType::UpdateProjectName { .. } | ActionType::UpdateProjectLanguages { .. } => {
                return Ok(None);
            },
            ActionType::ReorderImages { .. } => {
                return Ok(None);
            },
            ActionType::AddImage { image, .. } => Some(image.metadata.id),
            ActionType::RemoveImage { image, .. } => Some(image.metadata.id),
            ActionType::UpdateImage { id, .. } => Some(*id),
            ActionType::AddMarker { marker } => Some(marker.image_id),
            ActionType::RemoveMarker { marker } => Some(marker.image_id),
            ActionType::UpdateMarker { id, .. } => marker_location_exec(markers, *id).0,
            ActionType::UpdatePointMarkerPosition { id, .. } => marker_location_exec(markers, *id).0,
            ActionType::UpdateRectangleGeometry { id, .. } => marker_location_exec(markers, *id).0,
            ActionType::UpdateMarkerTranslation { id, .. } => marker_location_exec(markers, *id).0,
            ActionType::UpdateMarkerStyle { id, .. } => marker_location_exec(markers, *id).0,
            ActionType::UpdateMarkerOrder { id, .. } => marker_location_exec(markers, *id).0,
            ActionType::ClearImageMarkers { image_id, .. } => Some(*image_id),
            ActionType::ConvertRectangleToPoint { old_marker, .. } => Some(old_marker.image_id),
            ActionType::ConvertPointToRectangle { old_marker, .. } => Some(old_marker.image_id),
        };
        match image_id {
            Some(img) => find_project_by_image_storage(projects, img),
            None => Ok(None),
        }
    }
}

/// The histories of the projects, and the notices for the front end that
/// have not been collected yet.
pub struct UndoRedoService {
    pub stack: UndoRedoStack,
    pub pending: Vec<UndoRedoState>,
}

/// What an undo (or redo) request does to the histories, given the history
/// the action is taken from: nothing there leaves the histories as after
/// the take; otherwise the action is undone and its reversal goes on the
/// other history, and a notice is added.
pub open spec fn undo_request_done(
    o: CoreView,
    n: CoreView,
    oe: Seq<EventView>,
    ne: Seq<EventView>,
    os: UndoRedoStackView,
    ns: UndoRedoStackView,
    on: Seq<UndoRedoStateView>,
    nn: Seq<UndoRedoStateView>,
    pid: ProjectId,
    taken: Option<UndoRedoActionView>,
    after_take: UndoRedoStackView,
    redo: bool,
    r: CoreResult<Option<(Option<ImageId>, Option<MarkerId>)>>,
) -> bool {
    match taken {
        None => {
            &&& r == Ok::<Option<(Option<ImageId>, Option<MarkerId>)>, CoreError>(None)
            &&& ns == after_take
            &&& n == o
            &&& ne == oe
            &&& nn == on
        },
        Some(a) => {
            &&& r == Ok::<Option<(Option<ImageId>, Option<MarkerId>)>, CoreError>(
                Some(affected_location(a.action_type, o.markers.markers)),
            )
            &&& exists|rev: UndoRedoActionView|
                #![trigger step_done(o, n, oe, ne, a.project_id, a.action_type, rev.action_type, redo)]
                {
                    &&& rev.id == a.id
                    &&& step_done(o, n, oe, ne, a.project_id, a.action_type, rev.action_type, redo)
                    &&& geometry_undone(o, n, oe, ne, a.action_type, rev.action_type)
                    &&& ns == (if redo {
                        after_push_undo(UndoRedoStackView { is_undoing: false, ..after_take }, pid, rev)
                    } else {
                        after_push_redo(UndoRedoStackView { is_undoing: false, ..after_take }, pid, rev)
                    })
                }
            &&& nn == on.push(current_notice(ns, pid))
        },
    }
}

impl UndoRedoService {
    /// No histories and no notices.
    pub fn new() -> (s: Self)
        ensures
            s.stack@.stacks == Map::<ProjectId, crate::undo_stack::ProjectStackView>::empty(),
            !s.stack@.is_undoing,
            s.pending@.len() == 0,
    {
        UndoRedoService { stack: UndoRedoStack::new(), pending: Vec::new() }
    }

    /// Adds the notice that describes a project's history as it is now.
    fn emit_undo_redo_state(
        &mut self,
        project_id: ProjectId,
        can_undo: bool,
        can_redo: bool,
        current_commit_id: Option<uuid::Uuid>,
    )
        ensures
            final(self).stack@ == old(self).stack@,
            notice_views(final(self).pending@) == notice_views(old(self).pending@).push(
                notice_of(old(self).stack@, project_id, can_undo, can_redo, current_commit_id),
            ),
    {
        let name: &str = if can_undo {
            match self.stack.project_stacks.get(&project_id) {
                Some(s) => {
                    let n = s.undo_stack.len();
                    if n == 0 {
                        "none"
                    } else {
                        s.undo_stack[n - 1].action_type.get_action_name()
                    }
                },
                None => "none",
            }
        } else {
            "none"
        };
        proof {
            reveal_strlit("none");
        }
        let notice = UndoRedoState {
            project_id,
            undo_action_name: string_of(name),
            can_redo,
            current_commit_id,
        };
        self.pending.push(notice);
        assert(notice_views(self.pending@) =~= notice_views(old(self).pending@).push(
            notice_of(old(self).stack@, project_id, can_undo, can_redo, current_commit_id),
        ));
    }

    /// Adds the notice for a project's current history.
    fn emit_current_state(&mut self, project_id: ProjectId) -> (r: CoreResult<()>)
        ensures
            r == Ok::<(), CoreError>(()),
            final(self).stack@ == old(self).stack@,
            notice_views(final(self).pending@) == notice_views(old(self).pending@).push(
                current_notice(old(self).stack@, project_id),
            ),
    {
        let can_undo = self.stack.can_undo(project_id)?;
        let can_redo = self.stack.can_redo(project_id)?;
        let current_commit_id = self.stack.get_current_commit_id(project_id)?;
        self.emit_undo_redo_state(project_id, can_undo, can_redo, current_commit_id);
        Ok(())
    }

    /// Hands out the notices collected so far.
    pub fn take_notices(&mut self) -> (r: Vec<UndoRedoState>)
        ensures
            r@ == old(self).pending@,
            final(self).pending@.len() == 0,
            final(self).stack@ == old(self).stack@,
    {
        let mut out: Vec<UndoRedoState> = Vec::new();
        std::mem::swap(&mut out, &mut self.pending);
        out
    }

    /// Records an action in its project's history (unless an undo or redo
    /// is under way) and adds a notice.
    pub fn record_action(&mut self, action: UndoRedoAction) -> (r: CoreResult<()>)
        ensures
            r == Ok::<(), CoreError>(()),
            final(self).stack@ == after_push_action(old(self).stack@, action@),
            notice_views(final(self).pending@) == notice_views(old(self).pending@).push(
                current_notice(final(self).stack@, action.project_id),
            ),
    {
        let project_id = action.project_id;
        self.stack.push_action(action)?;
        self.emit_current_state(project_id)
    }

    fn perform_undo_step(&mut self, state: &mut AppState, events: &mut Vec<DomainEvent>, project_id: ProjectId) -> (r:
        CoreResult<Option<(Option<ImageId>, Option<MarkerId>)>>)
        requires
            top(stack_of(old(self).stack@, project_id).undo) matches Some(a) ==> undo_requires(
                core_of(*old(state)),
                a.action_type,
            ),
        ensures
            undo_request_done(
                core_of(*old(state)),
                core_of(*final(state)),
                event_views(old(events)@),
                event_views(final(events)@),
                old(self).stack@,
                final(self).stack@,
                notice_views(old(self).pending@),
                notice_views(final(self).pending@),
                project_id,
                top(stack_of(old(self).stack@, project_id).undo),
                after_pop_undo(old(self).stack@, project_id),
                false,
                r,
            ),
    {
        self.stack.get_or_create_project_stack(project_id)?;
        let ghost s1 = self.stack@;
        let action = self.stack.pop_undo_action(project_id)?;
        proof {
            assert(stack_of(s1, project_id) == stack_of(old(self).stack@, project_id));
            assert(after_pop_undo(s1, project_id).stacks =~= after_pop_undo(old(self).stack@, project_id).stacks);
        }
        match action {
            Some(action) => {
                self.stack.set_undoing(true)?;
                let location = action.get_affected_location(&state.markers);
                let result = perform_undo(state, events, &action);
                self.stack.set_undoing(false)?;
                let ghost a = action@;
                let reversed = result?;
                let ghost rev = reversed@;
                let ghost before_push = self.stack@;
                assert(before_push == (UndoRedoStackView { is_undoing: false, ..after_pop_undo(old(self).stack@, project_id) }));
                self.stack.push_redo_action(project_id, reversed)?;
                self.emit_current_state(project_id)?;
                assert(step_done(core_of(*old(state)), core_of(*state), event_views(old(events)@), event_views(events@), a.project_id, a.action_type, rev.action_type, false));
                assert(Some(a) == top(stack_of(old(self).stack@, project_id).undo));
                Ok(Some(location))
            },
            None => Ok(None),
        }
    }

    fn perform_redo_step(&mut self, state: &mut AppState, events: &mut Vec<DomainEvent>, project_id: ProjectId) -> (r:
        CoreResult<Option<(Option<ImageId>, Option<MarkerId>)>>)
        requires
            top(stack_of(old(self).stack@, project_id).redo) matches Some(a) ==> undo_requires(
                core_of(*old(state)),
                a.action_type,
            ),
        ensures
            undo_request_done(
                core_of(*old(state)),
                core_of(*final(state)),
                event_views(old(events)@),
                event_views(final(events)@),
                old(self).stack@,
                final(self).stack@,
                notice_views(old(self).pending@),
                notice_views(final(self).pending@),
                project_id,
                top(stack_of(old(self).stack@, project_id).redo),
                after_pop_redo(old(self).stack@, project_id),
                true,
                r,
            ),
    {
        self.stack.get_or_create_project_stack(project_id)?;
        let ghost s1 = self.stack@;
        let action = self.stack.pop_redo_action(project_id)?;
        proof {
            assert(stack_of(s1, project_id) == stack_of(old(self).stack@, project_id));
            assert(after_pop_redo(s1, project_id).stacks =~= after_pop_redo(old(self).stack@, project_id).stacks);
        }
        match action {
            Some(action) => {
                self.stack.set_undoing(true)?;
                let location = action.get_affected_location(&state.markers);
                let result = perform_redo(state, events, &action);
                self.stack.set_undoing(false)?;
                let ghost a = action@;
                let reversed = result?;
                let ghost rev = reversed@;
                let ghost before_push = self.stack@;
                assert(before_push == (UndoRedoStackView { is_undoing: false, ..after_pop_redo(old(self).stack@, project_id) }));
                self.stack.push_to_undo_stack(project_id, reversed)?;
                self.emit_current_state(project_id)?;
                assert(step_done(core_of(*old(state)), core_of(*state), event_views(old(events)@), event_views(events@), a.project_id, a.action_type, rev.action_type, true));
                assert(Some(a) == top(stack_of(old(self).stack@, project_id).redo));
                Ok(Some(location))
            },
            None => Ok(None),
        }
    }
}

/// The location an undo or redo request reports, given the action taken.
pub open spec fn located(
    taken: Option<UndoRedoActionView>,
    ms: Map<MarkerId, MarkerView>,
) -> Option<(Option<ImageId>, Option<MarkerId>)> {
    match taken {
        Some(a) => Some(affected_location(a.action_type, ms)),
        None => None,
    }
}

/// The answer to a request that went through with a location.
pub open spec fn answer(loc: Option<(Option<ImageId>, Option<MarkerId>)>) -> UndoRedoResult {
    match loc {
        Some((i, m)) => UndoRedoResult { success: true, image_id: i, marker_id: m },
        None => UndoRedoResult { success: true, image_id: None, marker_id: None },
    }
}

/// The action an event asks the history to record, with the page whose
/// project it goes to; `None` when the event is not recorded (or names a
/// marker that is gone, or clears no marker).
pub open spec fn event_action(e: EventView, ms: Map<MarkerId, MarkerView>) -> Option<(ImageId, ActionView)> {
    match e {
        EventView::MarkerAddedToImage(img, mid) => if ms.contains_key(mid) {
            Some((img, ActionView::AddMarker { marker: ms[mid] }))
        } else {
            None
        },
        EventView::MarkerRemovedFromImage(img, _mid, m) => Some((img, ActionView::RemoveMarker { marker: m })),
        EventView::RectangleGeometryUpdated { id, old_geometry, new_geometry } => if ms.contains_key(id) {
            Some((ms[id].image_id, ActionView::UpdateRectangleGeometry { id, old_geometry, new_geometry }))
        } else {
            None
        },
        EventView::PointMarkerPositionUpdated { id, old_pos, new_pos } => if ms.contains_key(id) {
            Some((ms[id].image_id, ActionView::UpdatePointMarkerPosition { id, old_pos, new_pos }))
        } else {
            None
        },
        EventView::MarkerTranslationUpdated { id, old_trans, new_trans } => if ms.contains_key(id) {
            Some((ms[id].image_id, ActionView::UpdateMarkerTranslation { id, old_trans, new_trans }))
        } else {
            None
        },
        EventView::MarkerStyleUpdated { id, old_style, new_style } => if ms.contains_key(id) {
            Some((ms[id].image_id, ActionView::UpdateMarkerStyle { id, old_style, new_style }))
        } else {
            None
        },
        EventView::MarkerFullUpdated {
            id,
            old_position,
            new_position,
            old_translation,
            new_translation,
            old_style,
            new_style,
        } => if ms.contains_key(id) {
            Some(
                (
                    ms[id].image_id,
                    ActionView::UpdateMarker {
                        id,
                        old_position,
                        new_position,
                        old_translation,
                        new_translation,
                        old_style,
                        new_style,
                    },
                ),
            )
        } else {
            None
        },
        EventView::MarkerOrderMoved { id, image_id, old_index, new_index } => Some(
            (image_id, ActionView::UpdateMarkerOrder { id, image_id, old_index, new_index }),
        ),
        EventView::ImageMarkersCleared(img, markers) => if markers.len() > 0 {
            Some((img, ActionView::ClearImageMarkers { image_id: img, markers }))
        } else {
            None
        },
        _ => None,
    }
}

/// Whether some project lists the page.
pub open spec fn listed(projects: Map<ProjectId, ProjectView>, img: ImageId) -> bool {
    exists|pid: ProjectId| #[trigger] projects.contains_key(pid) && projects[pid].image_ids.contains(img)
}

/// What handling an event does to the histories and the notices: a
/// deleted project's history is emptied; an event that describes an action
/// on a page records it in the history of the project that lists the page
/// (the smallest identifier, when several do; see
/// `find_project_by_image_storage`); other events change nothing.
pub open spec fn event_handled(
    e: EventView,
    ms: Map<MarkerId, MarkerView>,
    projects: Map<ProjectId, ProjectView>,
    os: UndoRedoStackView,
    ns: UndoRedoStackView,
    on: Seq<UndoRedoStateView>,
    nn: Seq<UndoRedoStateView>,
) -> bool {
    match e {
        EventView::ProjectDeleted(pid) => {
            &&& ns == (if os.stacks.contains_key(pid) {
                with_stack(os, pid, empty_stack())
            } else {
                os
            })
            &&& nn == on.push(notice_of(ns, pid, false, false, None))
        },
        _ => match event_action(e, ms) {
            Some((img, act)) => if listed(projects, img) {
                exists|a: UndoRedoActionView|
                    #![trigger after_push_action(os, a)]
                    {
                        &&& a.action_type == act
                        &&& least_lister(projects, img, a.project_id)
                        &&& ns == after_push_action(os, a)
                        &&& nn == on.push(current_notice(ns, a.project_id))
                    }
            } else {
                ns == os && nn == on
            },
            None => ns == os && nn == on,
        },
    }
}

impl UndoRedoService {
    /// Whether the project's next undo can be performed on `state` (what
    /// `undo` needs of the stores; true when there is nothing to undo).
    pub fn undo_possible(&self, state: &AppState, project_id: u32) -> (r: bool)
        ensures
            r == (top(stack_of(self.stack@, project_id).undo) matches Some(a) ==> undo_requires(
                core_of(*state),
                a.action_type,
            )),
    {
        match self.stack.peek_undo(project_id) {
            Some(a) => crate::undo_check::undo_possible(state, a),
            None => true,
        }
    }

    /// Whether the project's next redo can be performed on `state` (what
    /// `redo` needs of the stores; true when there is nothing to redo).
    pub fn redo_possible(&self, state: &AppState, project_id: u32) -> (r: bool)
        ensures
            r == (top(stack_of(self.stack@, project_id).redo) matches Some(a) ==> undo_requires(
                core_of(*state),
                a.action_type,
            )),
    {
        match self.stack.peek_redo(project_id) {
            Some(a) => crate::undo_check::undo_possible(state, a),
            None => true,
        }
    }

    /// Undoes the project's latest action: answers success with the page
    /// and marker it concerned (none when there was nothing to undo).
    pub fn undo(&mut self, state: &mut AppState, events: &mut Vec<DomainEvent>, project_id: u32) -> (r: UndoRedoResult)
        requires
            top(stack_of(old(self).stack@, project_id).undo) matches Some(a) ==> undo_requires(
                core_of(*old(state)),
                a.action_type,
            ),
        ensures
            r == answer(located(top(stack_of(old(self).stack@, project_id).undo), old(state).markers@.markers)),
            undo_request_done(
                core_of(*old(state)),
                core_of(*final(state)),
                event_views(old(events)@),
                event_views(final(events)@),
                old(self).stack@,
                final(self).stack@,
                notice_views(old(self).pending@),
                notice_views(final(self).pending@),
                project_id,
                top(stack_of(old(self).stack@, project_id).undo),
                after_pop_undo(old(self).stack@, project_id),
                false,
                Ok(located(top(stack_of(old(self).stack@, project_id).undo), old(state).markers@.markers)),
            ),
    {
        match self.perform_undo_step(state, events, project_id) {
            Ok(Some((image_id, marker_id))) => UndoRedoResult { success: true, image_id, marker_id },
            Ok(None) => UndoRedoResult { success: true, image_id: None, marker_id: None },
            Err(_) => UndoRedoResult { success: false, image_id: None, marker_id: None },
        }
    }

    /// Redoes the project's latest undone action: answers success with the
    /// page and marker it concerned (none when there was nothing to redo).
    pub fn redo(&mut self, state: &mut AppState, events: &mut Vec<DomainEvent>, project_id: u32) -> (r: UndoRedoResult)
        requires
            top(stack_of(old(self).stack@, project_id).redo) matches Some(a) ==> undo_requires(
                core_of(*old(state)),
                a.action_type,
            ),
        ensures
            r == answer(located(top(stack_of(old(self).stack@, project_id).redo), old(state).markers@.markers)),
            undo_request_done(
                core_of(*old(state)),
                core_of(*final(state)),
                event_views(old(events)@),
                event_views(final(events)@),
                old(self).stack@,
                final(self).stack@,
                notice_views(old(self).pending@),
                notice_views(final(self).pending@),
                project_id,
                top(stack_of(old(self).stack@, project_id).redo),
                after_pop_redo(old(self).stack@, project_id),
                true,
                Ok(located(top(stack_of(old(self).stack@, project_id).redo), old(state).markers@.markers)),
            ),
    {
        match self.perform_redo_step(state, events, project_id) {
            Ok(Some((image_id, marker_id))) => UndoRedoResult { success: true, image_id, marker_id },
            Ok(None) => UndoRedoResult { success: true, image_id: None, marker_id: None },
            Err(_) => UndoRedoResult { success: false, image_id: None, marker_id: None },
        }
    }

    /// Empties a project's history and tells the front end nothing can be
    /// undone or redone.
    pub fn clear_project_history(&mut self, project_id: u32)
        ensures
            final(self).stack@ == (if old(self).stack@.stacks.contains_key(project_id) {
                with_stack(old(self).stack@, project_id, empty_stack())
            } else {
                old(self).stack@
            }),
            notice_views(final(self).pending@) == notice_views(old(self).pending@).push(
                notice_of(final(self).stack@, project_id, false, false, None),
            ),
    {
        let _ = self.stack.clear(project_id);
        self.emit_undo_redo_state(project_id, false, false, None);
    }

    /// Forgets every project's history.
    pub fn clear_all_history(&mut self)
        ensures
            final(self).stack@.stacks == Map::<ProjectId, crate::undo_stack::ProjectStackView>::empty(),
            final(self).stack@.is_undoing == old(self).stack@.is_undoing,
            final(self).pending@ == old(self).pending@,
    {
        let _ = self.stack.clear_all();
    }

    /// Whether the project has something to undo.
    pub fn can_undo(&self, project_id: ProjectId) -> (r: CoreResult<bool>)
        ensures
            r == Ok::<bool, CoreError>(stack_of(self.stack@, project_id).undo.len() > 0),
    {
        self.stack.can_undo(project_id)
    }

    /// Whether the project has something to redo.
    pub fn can_redo(&self, project_id: ProjectId) -> (r: CoreResult<bool>)
        ensures
            r == Ok::<bool, CoreError>(stack_of(self.stack@, project_id).redo.len() > 0),
    {
        self.stack.can_redo(project_id)
    }

    /// Records the action an event describes in the history of a project
    /// that lists the page concerned (a deleted project's history is
    /// emptied instead).
    pub fn handle(&mut self, markers: &MarkerStorage, projects: &ProjectStorage, event: &DomainEvent)
        ensures
            event_handled(
                event@,
                markers@.markers,
                projects@,
                old(self).stack@,
                final(self).stack@,
                notice_views(old(self).pending@),
                notice_views(final(self).pending@),
            ),
    {
        let ghost ms = markers@.markers;
        let found: Option<(ImageId, ActionType)> = match event {
            DomainEvent::ProjectDeleted(project_id) => {
                self.clear_project_history(*project_id);
                return;
            },
            DomainEvent::MarkerAddedToImage(image_id, marker_id) => match markers.get(*marker_id) {
                Some(m) => Some((*image_id, ActionType::AddMarker { marker: m.clone() })),
                None => None,
            },
            DomainEvent::MarkerRemovedFromImage(image_id, _marker_id, marker) => Some(
                (*image_id, ActionType::RemoveMarker { marker: marker.clone() }),
            ),
            DomainEvent::RectangleGeometryUpdated { id, old_geometry, new_geometry } => match markers.get(*id) {
                Some(m) => Some(
                    (
                        m.image_id,
                        ActionType::UpdateRectangleGeometry {
                            id: *id,
                            old_geometry: *old_geometry,
                            new_geometry: *new_geometry,
                        },
                    ),
                ),
                None => None,
            },
            DomainEvent::PointMarkerPositionUpdated { id, old_pos, new_pos } => match markers.get(*id) {
                Some(m) => Some(
                    (m.image_id, ActionType::UpdatePointMarkerPosition { id: *id, old_pos: *old_pos, new_pos: *new_pos }),
                ),
                None => None,
            },
            DomainEvent::MarkerTranslationUpdated { id, old_trans, new_trans } => match markers.get(*id) {
                Some(m) => Some(
                    (
                        m.image_id,
                        ActionType::UpdateMarkerTranslation {
                            id: *id,
                            old_trans: old_trans.clone(),
                            new_trans: new_trans.clone(),
                        },
                    ),
                ),
                None => None,
            },
            DomainEvent::MarkerStyleUpdated { id, old_style, new_style } => match markers.get(*id) {
                Some(m) => Some(
                    (m.image_id, ActionType::UpdateMarkerStyle { id: *id, old_style: *old_style, new_style: *new_style }),
                ),
                None => None,
            },
            DomainEvent::MarkerFullUpdated {
                id,
                old_position,
                new_position,
                old_translation,
                new_translation,
                old_style,
                new_style,
            } => match markers.get(*id) {
                Some(m) => Some(
                    (
                        m.image_id,
                        ActionType::UpdateMarker {
                            id: *id,
                            old_position: *old_position,
                            new_position: *new_position,
                            old_translation: old_translation.clone(),
                            new_translation: new_translation.clone(),
                            old_style: *old_style,
                            new_style: *new_style,
                        },
                    ),
                ),
                None => None,
            },
            DomainEvent::MarkerOrderMoved { id, image_id, old_index, new_index } => Some(
                (
                    *image_id,
                    ActionType::UpdateMarkerOrder {
                        id: *id,
                        image_id: *image_id,
                        old_index: *old_index,
                        new_index: *new_index,
                    },
                ),
            ),
            DomainEvent::ImageMarkersCleared(image_id, markers_cleared) => {
                if markers_cleared.len() > 0 {
                    Some(
                        (
                            *image_id,
                            ActionType::ClearImageMarkers { image_id: *image_id, markers: clone_markers(markers_cleared) },
                        ),
                    )
                } else {
                    None
                }
            },
            _ => None,
        };
        proof {
            if found is Some {
                assert(event_action(event@, ms) == Some(((found->0).0, (found->0).1@)));
            } else {
                assert(event_action(event@, ms) is None);
            }
        }
        match found {
            Some((image_id, action_type)) => {
                match find_project_by_image_storage(projects, image_id) {
                    Ok(Some(project_id)) => {
                        let action = UndoRedoAction::new(action_type, project_id);
                        let ghost a = action@;
                        let _ = self.record_action(action);
                        assert(after_push_action(old(self).stack@, a) == self.stack@);
                    },
                    _ => {
                        assert(!listed(projects@, image_id));
                    },
                }
            },
            None => {},
        }
    }
}

} // verus!
