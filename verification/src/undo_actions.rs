use vstd::prelude::*;
use crate::error::{CoreError, CoreResult};
use crate::ids::{ImageId, MarkerId, ProjectId};
use crate::language::Language;
use crate::marker::{Marker, MarkerStyle, MarkerView};
use crate::image::{Image, ImageView};
use crate::project::{clone_opt_string, opt_str_view};
use crate::events::{Position, RectGeometry, marker_views};
use crate::clock::get_timestamp_secs;

verus! {

#[verifier::external_type_specification]
#[verifier::external_body]
pub struct ExUuid(uuid::Uuid);

/// A fresh random (version 4) identifier, from `Uuid::new_v4`; nothing is
/// promised of its value.
#[verifier::external_body]
pub fn new_action_id() -> (id: uuid::Uuid) {
    uuid::Uuid::new_v4()
}

/// A change that can be undone, with what is needed to reverse it.
#[derive(Debug)]
pub enum ActionType {
    UpdateProjectName { old_name: String, new_name: String },
    UpdateProjectLanguages { old_source: Language, new_source: Language, old_target: Language, new_target: Language },
    AddImage { image: Image, position: usize },
    RemoveImage { image: Image, position: usize, markers: Vec<Marker> },
    ReorderImages { old_order: Vec<ImageId>, new_order: Vec<ImageId> },
    UpdateImage { id: ImageId, old_name: Option<String>, new_name: Option<String> },
    AddMarker { marker: Marker },
    RemoveMarker { marker: Marker },
    UpdateMarker {
        id: MarkerId,
        old_position: Position,
        new_position: Position,
        old_translation: String,
        new_translation: String,
        old_style: MarkerStyle,
        new_style: MarkerStyle,
    },
    UpdatePointMarkerPosition { id: MarkerId, old_pos: Position, new_pos: Position },
    UpdateRectangleGeometry { id: MarkerId, old_geometry: RectGeometry, new_geometry: RectGeometry },
    UpdateMarkerTranslation { id: MarkerId, old_trans: String, new_trans: String },
    UpdateMarkerStyle { id: MarkerId, old_style: MarkerStyle, new_style: MarkerStyle },
    UpdateMarkerOrder { id: MarkerId, image_id: ImageId, old_index: u32, new_index: u32 },
    ClearImageMarkers { image_id: ImageId, markers: Vec<Marker> },
    ConvertRectangleToPoint { marker_id: MarkerId, old_marker: Marker, new_marker: Marker },
    ConvertPointToRectangle { marker_id: MarkerId, old_marker: Marker, new_marker: Marker },
}

/// The abstract value of an action.
pub enum ActionView {
    UpdateProjectName { old_name: Seq<char>, new_name: Seq<char> },
    UpdateProjectLanguages { old_source: Language, new_source: Language, old_target: Language, new_target: Language },
    AddImage { image: ImageView, position: usize },
    RemoveImage { image: ImageView, position: usize, markers: Seq<MarkerView> },
    ReorderImages { old_order: Seq<ImageId>, new_order: Seq<ImageId> },
    UpdateImage { id: ImageId, old_name: Option<Seq<char>>, new_name: Option<Seq<char>> },
    AddMarker { marker: MarkerView },
    RemoveMarker { marker: MarkerView },
    UpdateMarker {
        id: MarkerId,
        old_position: Position,
        new_position: Position,
        old_translation: Seq<char>,
        new_translation: Seq<char>,
        old_style: MarkerStyle,
        new_style: MarkerStyle,
    },
    UpdatePointMarkerPosition { id: MarkerId, old_pos: Position, new_pos: Position },
    UpdateRectangleGeometry { id: MarkerId, old_geometry: RectGeometry, new_geometry: RectGeometry },
    UpdateMarkerTranslation { id: MarkerId, old_trans: Seq<char>, new_trans: Seq<char> },
    UpdateMarkerStyle { id: MarkerId, old_style: MarkerStyle, new_style: MarkerStyle },
    UpdateMarkerOrder { id: MarkerId, image_id: ImageId, old_index: u32, new_index: u32 },
    ClearImageMarkers { image_id: ImageId, markers: Seq<MarkerView> },
    ConvertRectangleToPoint { marker_id: MarkerId, old_marker: MarkerView, new_marker: MarkerView },
    ConvertPointToRectangle { marker_id: MarkerId, old_marker: MarkerView, new_marker: MarkerView },
}

impl View for ActionType {
    type V = ActionView;

    open spec fn view(&self) -> ActionView {
        match *self {
            ActionType::UpdateProjectName { old_name, new_name } => ActionView::UpdateProjectName {
                old_name: old_name@,
                new_name: new_name@,
            },
            ActionType::UpdateProjectLanguages { old_source, new_source, old_target, new_target } =>
                ActionView::UpdateProjectLanguages { old_source, new_source, old_target, new_target },
            ActionType::AddImage { image, position } => ActionView::AddImage { image: image@, position },
            ActionType::RemoveImage { image, position, markers } => ActionView::RemoveImage {
                image: image@,
                position,
                markers: marker_views(markers@),
            },
            ActionType::ReorderImages { old_order, new_order } => ActionView::ReorderImages {
                old_order: old_order@,
                new_order: new_order@,
            },
            ActionType::UpdateImage { id, old_name, new_name } => ActionView::UpdateImage {
                id,
                old_name: opt_str_view(old_name),
                new_name: opt_str_view(new_name),
            },
            ActionType::AddMarker { marker } => ActionView::AddMarker { marker: marker@ },
            ActionType::RemoveMarker { marker } => ActionView::RemoveMarker { marker: marker@ },
            ActionType::UpdateMarker {
                id,
                old_position,
                new_position,
                old_translation,
                new_translation,
                old_style,
                new_style,
            } => ActionView::UpdateMarker {
                id,
                old_position,
                new_position,
                old_translation: old_translation@,
                new_translation: new_translation@,
                old_style,
                new_style,
            },
            ActionType::UpdatePointMarkerPosition { id, old_pos, new_pos } => ActionView::UpdatePointMarkerPosition {
                id,
                old_pos,
                new_pos,
            },
            ActionType::UpdateRectangleGeometry { id, old_geometry, new_geometry } =>
                ActionView::UpdateRectangleGeometry { id, old_geometry, new_geometry },
            ActionType::UpdateMarkerTranslation { id, old_trans, new_trans } => ActionView::UpdateMarkerTranslation {
                id,
                old_trans: old_trans@,
                new_trans: new_trans@,
            },
            ActionType::UpdateMarkerStyle { id, old_style, new_style } => ActionView::UpdateMarkerStyle {
                id,
                old_style,
                new_style,
            },
            ActionType::UpdateMarkerOrder { id, image_id, old_index, new_index } => ActionView::UpdateMarkerOrder {
                id,
                image_id,
                old_index,
                new_index,
            },
            ActionType::ClearImageMarkers { image_id, markers } => ActionView::ClearImageMarkers {
                image_id,
                markers: marker_views(markers@),
            },
            ActionType::ConvertRectangleToPoint { marker_id, old_marker, new_marker } =>
                ActionView::ConvertRectangleToPoint { marker_id, old_marker: old_marker@, new_marker: new_marker@ },
            ActionType::ConvertPointToRectangle { marker_id, old_marker, new_marker } =>
                ActionView::ConvertPointToRectangle { marker_id, old_marker: old_marker@, new_marker: new_marker@ },
        }
    }
}

/// Copies a list of markers.
pub fn clone_markers(v: &Vec<Marker>) -> (r: Vec<Marker>)
    ensures
        marker_views(r@) == marker_views(v@),
{
    let mut out: Vec<Marker> = Vec::new();
    let mut i: usize = 0;
    while i < v.len()
        invariant
            i <= v@.len(),
            out@.len() == i,
            forall|j: int| 0 <= j < i ==> out@[j]@ == v@[j]@,
        decreases v@.len() - i,
    {
        out.push(v[i].clone());
        i = i + 1;
    }
    assert(marker_views(out@) =~= marker_views(v@));
    out
}

impl Clone for ActionType {
    fn clone(&self) -> (r: Self)
        ensures
            r@ == self@,
    {
        match self {
            ActionType::UpdateProjectName { old_name, new_name } => ActionType::UpdateProjectName {
                old_name: old_name.clone(),
                new_name: new_name.clone(),
            },
            ActionType::UpdateProjectLanguages { old_source, new_source, old_target, new_target } =>
                ActionType::UpdateProjectLanguages {
                old_source: *old_source,
                new_source: *new_source,
                old_target: *old_target,
                new_target: *new_target,
            },
            ActionType::AddImage { image, position } => ActionType::AddImage {
                image: image.clone(),
                position: *position,
            },
            ActionType::RemoveImage { image, position, markers } => ActionType::RemoveImage {
                image: image.clone(),
                position: *position,
                markers: clone_markers(markers),
            },
            ActionType::ReorderImages { old_order, new_order } => ActionType::ReorderImages {
                old_order: old_order.clone(),
                new_order: new_order.clone(),
            },
            ActionType::UpdateImage { id, old_name, new_name } => ActionType::UpdateImage {
                id: *id,
                old_name: clone_opt_string(old_name),
                new_name: clone_opt_string(new_name),
            },
            ActionType::AddMarker { marker } => ActionType::AddMarker { marker: marker.clone() },
            ActionType::RemoveMarker { marker } => ActionType::RemoveMarker { marker: marker.clone() },
            ActionType::UpdateMarker {
                id,
                old_position,
                new_position,
                old_translation,
                new_translation,
                old_style,
                new_style,
            } => ActionType::UpdateMarker {
                id: *id,
                old_position: *old_position,
                new_position: *new_position,
                old_translation: old_translation.clone(),
                new_translation: new_translation.clone(),
                old_style: *old_style,
                new_style: *new_style,
            },
            ActionType::UpdatePointMarkerPosition { id, old_pos, new_pos } => ActionType::UpdatePointMarkerPosition {
                id: *id,
                old_pos: *old_pos,
                new_pos: *new_pos,
            },
            ActionType::UpdateRectangleGeometry { id, old_geometry, new_geometry } =>
                ActionType::UpdateRectangleGeometry {
                id: *id,
                old_geometry: *old_geometry,
                new_geometry: *new_geometry,
            },
            ActionType::UpdateMarkerTranslation { id, old_trans, new_trans } => ActionType::UpdateMarkerTranslation {
                id: *id,
                old_trans: old_trans.clone(),
                new_trans: new_trans.clone(),
            },
            ActionType::UpdateMarkerStyle { id, old_style, new_style } => ActionType::UpdateMarkerStyle {
                id: *id,
                old_style: *old_style,
                new_style: *new_style,
            },
            ActionType::UpdateMarkerOrder { id, image_id, old_index, new_index } => ActionType::UpdateMarkerOrder {
                id: *id,
                image_id: *image_id,
                old_index: *old_index,
                new_index: *new_index,
            },
            ActionType::ClearImageMarkers { image_id, markers } => ActionType::ClearImageMarkers {
                image_id: *image_id,
                markers: clone_markers(markers),
            },
            ActionType::ConvertRectangleToPoint { marker_id, old_marker, new_marker } =>
                ActionType::ConvertRectangleToPoint {
                marker_id: *marker_id,
                old_marker: old_marker.clone(),
                new_marker: new_marker.clone(),
            },
            ActionType::ConvertPointToRectangle { marker_id, old_marker, new_marker } =>
                ActionType::ConvertPointToRectangle {
                marker_id: *marker_id,
                old_marker: old_marker.clone(),
                new_marker: new_marker.clone(),
            },
        }
    }
}

/// The display name of an action's kind.
pub open spec fn action_name(a: ActionView) -> Seq<char> {
    match a {
        ActionView::UpdateProjectName { .. } => "UpdateProjectName"@,
        ActionView::UpdateProjectLanguages { .. } => "UpdateProjectLanguages"@,
        ActionView::AddImage { .. } => "AddImage"@,
        ActionView::RemoveImage { .. } => "RemoveImage"@,
        ActionView::ReorderImages { .. } => "ReorderImages"@,
        ActionView::UpdateImage { .. } => "UpdateImage"@,
        ActionView::AddMarker { .. } => "AddMarker"@,
        ActionView::RemoveMarker { .. } => "RemoveMarker"@,
        ActionView::UpdateMarker { .. } => "UpdateMarker"@,
        ActionView::UpdatePointMarkerPosition { .. } => "UpdatePointMarkerPosition"@,
        ActionView::UpdateRectangleGeometry { .. } => "UpdateRectangleGeometry"@,
        ActionView::UpdateMarkerTranslation { .. } => "UpdateMarkerTranslation"@,
        ActionView::UpdateMarkerStyle { .. } => "UpdateMarkerStyle"@,
        ActionView::UpdateMarkerOrder { .. } => "UpdateMarkerOrder"@,
        ActionView::ClearImageMarkers { .. } => "ClearImageMarkers"@,
        ActionView::ConvertRectangleToPoint { .. } => "ConvertRectangleToPoint"@,
        ActionView::ConvertPointToRectangle { .. } => "ConvertPointToRectangle"@,
    }
}

impl ActionType {
    /// The name of the action's kind, for display.
    pub fn get_action_name(&self) -> (r: &'static str)
        ensures
            r@ == action_name(self@),
    {
        match self {
            ActionType::UpdateProjectName { .. } => "UpdateProjectName",
            ActionType::UpdateProjectLanguages { .. } => "UpdateProjectLanguages",
            ActionType::AddImage { .. } => "AddImage",
            ActionType::RemoveImage { .. } => "RemoveImage",
            ActionType::ReorderImages { .. } => "ReorderImages",
            ActionType::UpdateImage { .. } => "UpdateImage",
            ActionType::AddMarker { .. } => "AddMarker",
            ActionType::RemoveMarker { .. } => "RemoveMarker",
            ActionType::UpdateMarker { .. } => "UpdateMarker",
            ActionType::UpdatePointMarkerPosition { .. } => "UpdatePointMarkerPosition",
            ActionType::UpdateRectangleGeometry { .. } => "UpdateRectangleGeometry",
            ActionType::UpdateMarkerTranslation { .. } => "UpdateMarkerTranslation",
            ActionType::UpdateMarkerStyle { .. } => "UpdateMarkerStyle",
            ActionType::UpdateMarkerOrder { .. } => "UpdateMarkerOrder",
            ActionType::ClearImageMarkers { .. } => "ClearImageMarkers",
            ActionType::ConvertRectangleToPoint { .. } => "ConvertRectangleToPoint",
            ActionType::ConvertPointToRectangle { .. } => "ConvertPointToRectangle",
        }
    }
}

/// One entry of a project's history: an action with its identifier, its
/// project and the second it was recorded.
#[derive(Debug)]
pub struct UndoRedoAction {
    pub id: uuid::Uuid,
    pub action_type: ActionType,
    pub project_id: ProjectId,
    pub timestamp: u64,
}

/// The abstract value of a history entry.
pub struct UndoRedoActionView {
    pub id: uuid::Uuid,
    pub action_type: ActionView,
    pub project_id: ProjectId,
    pub timestamp: u64,
}

impl View for UndoRedoAction {
    type V = UndoRedoActionView;

    open spec fn view(&self) -> UndoRedoActionView {
        UndoRedoActionView {
            id: self.id,
            action_type: self.action_type@,
            project_id: self.project_id,
            timestamp: self.timestamp,
        }
    }
}

impl Clone for UndoRedoAction {
    fn clone(&self) -> (r: Self)
        ensures
            r@ == self@,
    {
        UndoRedoAction {
            id: self.id,
            action_type: self.action_type.clone(),
            project_id: self.project_id,
            timestamp: self.timestamp,
        }
    }
}

impl UndoRedoAction {
    /// A new history entry with a fresh identifier, stamped with the clock.
    pub fn new(action_type: ActionType, project_id: ProjectId) -> (a: Self)
        ensures
            a.action_type@ == action_type@,
            a.project_id == project_id,
    {
        UndoRedoAction { id: new_action_id(), action_type, project_id, timestamp: get_timestamp_secs() }
    }

    /// A history entry that keeps an earlier entry's identifier (the
    /// reversed form of an undone or redone entry), stamped with the clock.
    pub fn with_id(id: uuid::Uuid, action_type: ActionType, project_id: ProjectId) -> (a: Self)
        ensures
            a.id == id,
            a.action_type@ == action_type@,
            a.project_id == project_id,
    {
        UndoRedoAction { id, action_type, project_id, timestamp: get_timestamp_secs() }
    }
}

} // verus!
