use vstd::prelude::*;
use crate::ids::{ImageId, MarkerId, ProjectId};
use crate::language::Language;
use crate::marker::{Marker, MarkerStyle, MarkerView};

verus! {

/// A point `(x, y)`, each coordinate held as the bit pattern of an `f64`.
pub type Position = (u64, u64);

/// A rectangle `(x, y, width, height)`, as `f64` bit patterns.
pub type RectGeometry = (u64, u64, u64, u64);

/// What happened in the domain; handlers react to these (the history
/// records undoable ones, the front end refreshes).
#[derive(Debug)]
pub enum DomainEvent {
    ProjectCreated(ProjectId, String),
    ProjectDeleting(ProjectId),
    ProjectDeleted(ProjectId),
    ProjectNameUpdated(ProjectId, String),
    ProjectLanguagesUpdated(ProjectId, Language, Language),
    OpeningProjectCreated(ProjectId, String),
    OpeningProjectFinalized(ProjectId),
    OpeningProjectDeleted(ProjectId),
    ImageAddedToProject(ProjectId, ImageId),
    ImageRemovedFromProject(ProjectId, ImageId),
    ImageDeleting(ImageId),
    ImageDeleted(ImageId),
    ImageUpdated(ImageId),
    MarkerAddedToImage(ImageId, MarkerId),
    MarkerRemovedFromImage(ImageId, MarkerId, Marker),
    MarkerDeleting(MarkerId),
    MarkerDeleted(MarkerId),
    MarkerUpdated(MarkerId),
    PointMarkerPositionUpdated { id: MarkerId, old_pos: Position, new_pos: Position },
    RectangleGeometryUpdated { id: MarkerId, old_geometry: RectGeometry, new_geometry: RectGeometry },
    MarkerTranslationUpdated { id: MarkerId, old_trans: String, new_trans: String },
    MarkerStyleUpdated { id: MarkerId, old_style: MarkerStyle, new_style: MarkerStyle },
    MarkerFullUpdated {
        id: MarkerId,
        old_position: Position,
        new_position: Position,
        old_translation: String,
        new_translation: String,
        old_style: MarkerStyle,
        new_style: MarkerStyle,
    },
    MarkerOrderMoved { id: MarkerId, image_id: ImageId, old_index: u32, new_index: u32 },
    ParseLabelplusRequested(ProjectId, String),
    ParseBfRequested(ProjectId, Vec<u8>),
    AllDataClearing,
    AllDataCleared,
    ProjectDataClearing(ProjectId),
    ProjectDataCleared(ProjectId),
    ImageMarkersClearing(ImageId),
    ImageMarkersCleared(ImageId, Vec<Marker>),
    ProjectImagesDeleting(ProjectId, Vec<ImageId>),
    ImageMarkersDeleting(ImageId, Vec<MarkerId>),
}

/// The abstract value of an event: texts as char sequences, markers by view.
pub enum EventView {
    ProjectCreated(ProjectId, Seq<char>),
    ProjectDeleting(ProjectId),
    ProjectDeleted(ProjectId),
    ProjectNameUpdated(ProjectId, Seq<char>),
    ProjectLanguagesUpdated(ProjectId, Language, Language),
    OpeningProjectCreated(ProjectId, Seq<char>),
    OpeningProjectFinalized(ProjectId),
    OpeningProjectDeleted(ProjectId),
    ImageAddedToProject(ProjectId, ImageId),
    ImageRemovedFromProject(ProjectId, ImageId),
    ImageDeleting(ImageId),
    ImageDeleted(ImageId),
    ImageUpdated(ImageId),
    MarkerAddedToImage(ImageId, MarkerId),
    MarkerRemovedFromImage(ImageId, MarkerId, MarkerView),
    MarkerDeleting(MarkerId),
    MarkerDeleted(MarkerId),
    MarkerUpdated(MarkerId),
    PointMarkerPositionUpdated { id: MarkerId, old_pos: Position, new_pos: Position },
    RectangleGeometryUpdated { id: MarkerId, old_geometry: RectGeometry, new_geometry: RectGeometry },
    MarkerTranslationUpdated { id: MarkerId, old_trans: Seq<char>, new_trans: Seq<char> },
    MarkerStyleUpdated { id: MarkerId, old_style: MarkerStyle, new_style: MarkerStyle },
    MarkerFullUpdated {
        id: MarkerId,
        old_position: Position,
        new_position: Position,
        old_translation: Seq<char>,
        new_translation: Seq<char>,
        old_style: MarkerStyle,
        new_style: MarkerStyle,
    },
    MarkerOrderMoved { id: MarkerId, image_id: ImageId, old_index: u32, new_index: u32 },
    ParseLabelplusRequested(ProjectId, Seq<char>),
    ParseBfRequested(ProjectId, Seq<u8>),
    AllDataClearing,
    AllDataCleared,
    ProjectDataClearing(ProjectId),
    ProjectDataCleared(ProjectId),
    ImageMarkersClearing(ImageId),
    ImageMarkersCleared(ImageId, Seq<MarkerView>),
    ProjectImagesDeleting(ProjectId, Seq<ImageId>),
    ImageMarkersDeleting(ImageId, Seq<MarkerId>),
}

/// The views of a list of markers.
pub open spec fn marker_views(v: Seq<Marker>) -> Seq<MarkerView> {
    v.map_values(|m: Marker| m@)
}

impl View for DomainEvent {
    type V = EventView;

    open spec fn view(&self) -> EventView {
        match *self {
            DomainEvent::ProjectCreated(p, n) => EventView::ProjectCreated(p, n@),
            DomainEvent::ProjectDeleting(p) => EventView::ProjectDeleting(p),
            DomainEvent::ProjectDeleted(p) => EventView::ProjectDeleted(p),
            DomainEvent::ProjectNameUpdated(p, n) => EventView::ProjectNameUpdated(p, n@),
            DomainEvent::ProjectLanguagesUpdated(p, s, t) => EventView::ProjectLanguagesUpdated(p, s, t),
            DomainEvent::OpeningProjectCreated(p, n) => EventView::OpeningProjectCreated(p, n@),
            DomainEvent::OpeningProjectFinalized(p) => EventView::OpeningProjectFinalized(p),
            DomainEvent::OpeningProjectDeleted(p) => EventView::OpeningProjectDeleted(p),
            DomainEvent::ImageAddedToProject(p, i) => EventView::ImageAddedToProject(p, i),
            DomainEvent::ImageRemovedFromProject(p, i) => EventView::ImageRemovedFromProject(p, i),
            DomainEvent::ImageDeleting(i) => EventView::ImageDeleting(i),
            DomainEvent::ImageDeleted(i) => EventView::ImageDeleted(i),
            DomainEvent::ImageUpdated(i) => EventView::ImageUpdated(i),
            DomainEvent::MarkerAddedToImage(i, m) => EventView::MarkerAddedToImage(i, m),
            DomainEvent::MarkerRemovedFromImage(i, m, mk) => EventView::MarkerRemovedFromImage(i, m, mk@),
            DomainEvent::MarkerDeleting(m) => EventView::MarkerDeleting(m),
            DomainEvent::MarkerDeleted(m) => EventView::MarkerDeleted(m),
            DomainEvent::MarkerUpdated(m) => EventView::MarkerUpdated(m),
            DomainEvent::PointMarkerPositionUpdated { id, old_pos, new_pos } => EventView::PointMarkerPositionUpdated {
                id,
                old_pos,
                new_pos,
            },
            DomainEvent::RectangleGeometryUpdated { id, old_geometry, new_geometry } =>
                EventView::RectangleGeometryUpdated { id, old_geometry, new_geometry },
            DomainEvent::MarkerTranslationUpdated { id, old_trans, new_trans } => EventView::MarkerTranslationUpdated {
                id,
                old_trans: old_trans@,
                new_trans: new_trans@,
            },
            DomainEvent::MarkerStyleUpdated { id, old_style, new_style } => EventView::MarkerStyleUpdated {
                id,
                old_style,
                new_style,
            },
            DomainEvent::MarkerFullUpdated {
                id,
                old_position,
                new_position,
                old_translation,
                new_translation,
                old_style,
                new_style,
            } => EventView::MarkerFullUpdated {
                id,
                old_position,
                new_position,
                old_translation: old_translation@,
                new_translation: new_translation@,
                old_style,
                new_style,
            },
            DomainEvent::MarkerOrderMoved { id, image_id, old_index, new_index } => EventView::MarkerOrderMoved {
                id,
                image_id,
                old_index,
                new_index,
            },
            DomainEvent::ParseLabelplusRequested(p, c) => EventView::ParseLabelplusRequested(p, c@),
            DomainEvent::ParseBfRequested(p, d) => EventView::ParseBfRequested(p, d@),
            DomainEvent::AllDataClearing => EventView::AllDataClearing,
            DomainEvent::AllDataCleared => EventView::AllDataCleared,
            DomainEvent::ProjectDataClearing(p) => EventView::ProjectDataClearing(p),
            DomainEvent::ProjectDataCleared(p) => EventView::ProjectDataCleared(p),
            DomainEvent::ImageMarkersClearing(i) => EventView::ImageMarkersClearing(i),
            DomainEvent::ImageMarkersCleared(i, ms) => EventView::ImageMarkersCleared(i, marker_views(ms@)),
            DomainEvent::ProjectImagesDeleting(p, ids) => EventView::ProjectImagesDeleting(p, ids@),
            DomainEvent::ImageMarkersDeleting(i, ids) => EventView::ImageMarkersDeleting(i, ids@),
        }
    }
}

/// The views of a list of events.
pub open spec fn event_views(v: Seq<DomainEvent>) -> Seq<EventView> {
    v.map_values(|e: DomainEvent| e@)
}

} // verus!
