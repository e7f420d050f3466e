use vstd::prelude::*;
use crate::text::{ascii_lower, chars_of, lower_equals};
use crate::paths::{path_extension, path_extension_of};

verus! {

/// The raster formats the application understands.
#[derive(Debug, Clone, Copy, PartialEq, Eq, Structural)]
pub enum ImageFormat {
    Jpeg,
    Png,
    Gif,
    Webp,
    Bmp,
}

/// The format named by a file extension, compared without regard to ASCII
/// case. (None of the recognised names contains a letter that a non-ASCII
/// char lower-cases to, so this agrees with full Unicode lower-casing.)
pub open spec fn image_format_of_extension(ext: Seq<char>) -> Option<ImageFormat> {
    let l = ascii_lower(ext);
    if l == "jpg"@ || l == "jpeg"@ {
        Some(ImageFormat::Jpeg)
    } else if l == "png"@ {
        Some(ImageFormat::Png)
    } else if l == "gif"@ {
        Some(ImageFormat::Gif)
    } else if l == "webp"@ {
        Some(ImageFormat::Webp)
    } else if l == "bmp"@ {
        Some(ImageFormat::Bmp)
    } else {
        None
    }
}

impl ImageFormat {
    /// The format named by a file extension (case-insensitive).
    pub fn from_extension(ext: &str) -> (r: Option<Self>)
        ensures
            r == image_format_of_extension(ext@),
    {
        let e = chars_of(ext);
        if lower_equals(&e, "jpg") || lower_equals(&e, "jpeg") {
            Some(ImageFormat::Jpeg)
        } else if lower_equals(&e, "png") {
            Some(ImageFormat::Png)
        } else if lower_equals(&e, "gif") {
            Some(ImageFormat::Gif)
        } else if lower_equals(&e, "webp") {
            Some(ImageFormat::Webp)
        } else if lower_equals(&e, "bmp") {
            Some(ImageFormat::Bmp)
        } else {
            None
        }
    }

    /// The MIME type of the format.
    pub fn mime_type(&self) -> (r: &'static str)
        ensures
            r@ == (match *self {
                ImageFormat::Jpeg => "image/jpeg"@,
                ImageFormat::Png => "image/png"@,
                ImageFormat::Gif => "image/gif"@,
                ImageFormat::Webp => "image/webp"@,
                ImageFormat::Bmp => "image/bmp"@,
            }),
    {
        match self {
            ImageFormat::Jpeg => "image/jpeg",
            ImageFormat::Png => "image/png",
            ImageFormat::Gif => "image/gif",
            ImageFormat::Webp => "image/webp",
            ImageFormat::Bmp => "image/bmp",
        }
    }

    /// The usual file extension of the format.
    pub fn extension(&self) -> (r: &'static str)
        ensures
            r@ == (match *self {
                ImageFormat::Jpeg => "jpg"@,
                ImageFormat::Png => "png"@,
                ImageFormat::Gif => "gif"@,
                ImageFormat::Webp => "webp"@,
                ImageFormat::Bmp => "bmp"@,
            }),
    {
        match self {
            ImageFormat::Jpeg => "jpg",
            ImageFormat::Png => "png",
            ImageFormat::Gif => "gif",
            ImageFormat::Webp => "webp",
            ImageFormat::Bmp => "bmp",
        }
    }
}

/// Where the bytes of an image are: a file, an in-memory buffer, or a buffer
/// shared with the host (by number).
#[derive(Debug)]
pub enum ImageData {
    FilePath(String),
    Binary { format: ImageFormat, data: Vec<u8> },
    SharedBuffer { format: ImageFormat, buffer_id: u32 },
}

/// The abstract value of `ImageData`.
pub enum ImageDataView {
    FilePath(Seq<char>),
    Binary { format: ImageFormat, data: Seq<u8> },
    SharedBuffer { format: ImageFormat, buffer_id: u32 },
}

impl View for ImageData {
    type V = ImageDataView;

    open spec fn view(&self) -> ImageDataView {
        match self {
            ImageData::FilePath(p) => ImageDataView::FilePath(p@),
            ImageData::Binary { format, data } => ImageDataView::Binary { format: *format, data: data@ },
            ImageData::SharedBuffer { format, buffer_id } => ImageDataView::SharedBuffer {
                format: *format,
                buffer_id: *buffer_id,
            },
        }
    }
}

/// The format of image data: carried by buffers, taken from the extension
/// for files.
pub open spec fn image_data_format(d: ImageDataView) -> Option<ImageFormat> {
    match d {
        ImageDataView::Binary { format, .. } => Some(format),
        ImageDataView::SharedBuffer { format, .. } => Some(format),
        ImageDataView::FilePath(p) => match path_extension_of(p) {
            Some(ext) => image_format_of_extension(ext),
            None => None,
        },
    }
}

impl Clone for ImageData {
    fn clone(&self) -> (r: Self)
        ensures
            r@ == self@,
    {
        match self {
            ImageData::FilePath(p) => ImageData::FilePath(p.clone()),
            ImageData::Binary { format, data } => ImageData::Binary { format: *format, data: data.clone() },
            ImageData::SharedBuffer { format, buffer_id } => ImageData::SharedBuffer {
                format: *format,
                buffer_id: *buffer_id,
            },
        }
    }
}

impl ImageData {
    /// The format of the data (from the extension, for a file).
    pub fn get_format(&self) -> (r: Option<ImageFormat>)
        ensures
            r == image_data_format(self@),
    {
        match self {
            ImageData::Binary { format, .. } => Some(*format),
            ImageData::SharedBuffer { format, .. } => Some(*format),
            ImageData::FilePath(path) => match path_extension(path.as_str()) {
                Some(ext) => ImageFormat::from_extension(ext.as_str()),
                None => None,
            },
        }
    }

    /// The in-memory bytes, for buffer data.
    pub fn get_data(&self) -> (r: Option<&Vec<u8>>)
        ensures
            match self@ {
                ImageDataView::Binary { data, .. } => r is Some && r->0@ == data,
                _ => r is None,
            },
    {
        match self {
            ImageData::Binary { data, .. } => Some(data),
            _ => None,
        }
    }
}

} // verus!
