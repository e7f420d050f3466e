use vstd::prelude::*;
use crate::ids::{ImageId, MarkerId};
use crate::marker::{MarkerGeometry, MarkerStyle, MarkerView};

verus! {

/// Image format as exchanged with the front end.
#[derive(Debug, Clone, Copy, PartialEq, Eq, Structural)]
pub enum ImageFormat {
    Jpeg,
    Png,
    Gif,
    Webp,
    Bmp,
}

/// Image metadata as exchanged with the front end.
#[derive(Debug)]
pub struct ImageMetadataDTO {
    pub id: ImageId,
    pub name: Option<String>,
    pub width: Option<u32>,
    pub height: Option<u32>,
    pub format: Option<ImageFormat>,
    pub size: Option<u64>,
    pub checksum: Option<String>,
}

/// Image bytes or their location, as exchanged with the front end.
#[derive(Debug)]
pub enum ImageDataDTO {
    FilePath(String),
    Binary { format: ImageFormat, data: Vec<u8> },
    SharedBuffer { format: ImageFormat, buffer_id: u32 },
}

/// An image as exchanged with the front end.
#[derive(Debug)]
pub struct ImageDTO {
    pub metadata: ImageMetadataDTO,
    pub data: ImageDataDTO,
    pub marker_ids: Vec<MarkerId>,
}

/// A marker's place as exchanged with the front end (coordinates as the bit
/// patterns of the percentages).
#[derive(Debug, Clone, Copy, PartialEq, Eq, Structural)]
pub enum MarkerGeometryDTO {
    Point { x: u64, y: u64 },
    Rectangle { x: u64, y: u64, width: u64, height: u64 },
}

/// A marker's layout flags as exchanged with the front end.
#[derive(Debug, Clone, Copy, PartialEq, Eq, Structural)]
pub struct MarkerStyleDTO {
    pub overlay_text: bool,
    pub horizontal: bool,
}

/// A marker as exchanged with the front end.
#[derive(Debug)]
pub struct MarkerDTO {
    pub id: MarkerId,
    pub image_id: ImageId,
    pub geometry: MarkerGeometryDTO,
    pub translation: String,
    pub style: MarkerStyleDTO,
    pub image_index: u32,
}

/// The stored geometry a front-end geometry stands for.
pub open spec fn geometry_of_dto(g: MarkerGeometryDTO) -> MarkerGeometry {
    match g {
        MarkerGeometryDTO::Point { x, y } => MarkerGeometry::Point { x, y },
        MarkerGeometryDTO::Rectangle { x, y, width, height } => MarkerGeometry::Rectangle { x, y, width, height },
    }
}

impl View for MarkerDTO {
    type V = MarkerView;

    open spec fn view(&self) -> MarkerView {
        MarkerView {
            id: self.id,
            image_id: self.image_id,
            geometry: geometry_of_dto(self.geometry),
            translation: self.translation@,
            style: MarkerStyle { overlay_text: self.style.overlay_text, horizontal: self.style.horizontal },
            image_index: self.image_index,
        }
    }
}

} // verus!
