use vstd::prelude::*;
use crate::error::{CoreError, CoreResult};
use crate::ids::{IdGenerator, ImageId, MarkerId};
use crate::dto;
use crate::events::{DomainEvent, EventView, event_views};
use crate::image_data::{ImageData, ImageDataView, ImageFormat, image_data_format};
use crate::image::{
    ImageView,
    dto_describes,
    format_to_dto,
    format_from_dto,
    image_updated,
    image_after_update,
    stored_with_check,
    with_opt_name,
    path_image_view,
    binary_image_view,
    opt_bytes_view,
    path_read_overflows,
    estimated_size_of,
    add_image_from_path_storage,
    add_image_from_binary_storage,
    get_image_storage,
    update_image_storage,
    update_image_data_storage,
    update_image_name_storage,
    delete_image_storage,
    add_marker_to_image_storage,
    remove_marker_from_image_storage,
    clear_image_markers_storage,
    get_image_marker_ids_storage,
    clear_all_images_storage,
};
use crate::project::{opt_str_view, push_unique};
use crate::collections::without;
use crate::state::{ImageStorage, ImageStorageView};
use crate::paths::{path_extension, path_extension_of};
use crate::image_data::image_format_of_extension;
use crate::dimension_extractor::{dimensions_of, extract_dimensions_from_bytes, header_read_overflows};
use crate::checksum::{md5_digest_of, md5_hex};
use crate::text::{lower_hex, string_of};

verus! {

/// The stored form of transfer image data.
pub open spec fn data_of_dto(d: dto::ImageDataDTO) -> ImageDataView {
    match d {
        dto::ImageDataDTO::FilePath(p) => ImageDataView::FilePath(p@),
        dto::ImageDataDTO::Binary { format, data } => ImageDataView::Binary {
            format: format_of_dto(format),
            data: data@,
        },
        dto::ImageDataDTO::SharedBuffer { format, buffer_id } => ImageDataView::SharedBuffer {
            format: format_of_dto(format),
            buffer_id,
        },
    }
}

/// The stored form of a transfer format (same variant).
pub open spec fn format_of_dto(f: dto::ImageFormat) -> ImageFormat {
    match f {
        dto::ImageFormat::Jpeg => ImageFormat::Jpeg,
        dto::ImageFormat::Png => ImageFormat::Png,
        dto::ImageFormat::Gif => ImageFormat::Gif,
        dto::ImageFormat::Webp => ImageFormat::Webp,
        dto::ImageFormat::Bmp => ImageFormat::Bmp,
    }
}

fn storage_format(f: dto::ImageFormat) -> (r: ImageFormat)
    ensures
        r == format_of_dto(f),
{
    match f {
        dto::ImageFormat::Jpeg => ImageFormat::Jpeg,
        dto::ImageFormat::Png => ImageFormat::Png,
        dto::ImageFormat::Gif => ImageFormat::Gif,
        dto::ImageFormat::Webp => ImageFormat::Webp,
        dto::ImageFormat::Bmp => ImageFormat::Bmp,
    }
}

/// Converts transfer image data to the stored form.
pub fn storage_data(d: dto::ImageDataDTO) -> (r: ImageData)
    ensures
        r@ == data_of_dto(d),
{
    match d {
        dto::ImageDataDTO::FilePath(path) => ImageData::FilePath(path),
        dto::ImageDataDTO::Binary { format, data } => ImageData::Binary { format: storage_format(format), data },
        dto::ImageDataDTO::SharedBuffer { format, buffer_id } => ImageData::SharedBuffer {
            format: storage_format(format),
            buffer_id,
        },
    }
}

/// What processing an image's bytes gives: its dimensions (when the header
/// gives them), its MD5 checksum and its format.
#[derive(Debug)]
pub struct ImageProcessingResult {
    pub width: Option<u32>,
    pub height: Option<u32>,
    pub checksum: Option<String>,
    pub format: ImageFormat,
}

/// Whether `r` is what processing `data` in `format` gives.
pub open spec fn processed(r: ImageProcessingResult, data: Seq<u8>, format: ImageFormat) -> bool {
    &&& r.width == (match dimensions_of(data, format) {
        Some((w, _)) => Some(w),
        None => None,
    })
    &&& r.height == (match dimensions_of(data, format) {
        Some((_, h)) => Some(h),
        None => None,
    })
    &&& opt_str_view(r.checksum) == Some(lower_hex(md5_digest_of(data)))
    &&& r.format == format
}

/// The MIME type of an image's data: that of its format, or for a path the
/// one its extension names.
pub open spec fn data_mime(d: ImageDataView) -> Option<Seq<char>> {
    match image_data_format(d) {
        Some(f) => Some(mime_of(f)),
        None => None,
    }
}

/// The MIME type of a format.
pub open spec fn mime_of(f: ImageFormat) -> Seq<char> {
    match f {
        ImageFormat::Jpeg => "image/jpeg"@,
        ImageFormat::Png => "image/png"@,
        ImageFormat::Gif => "image/gif"@,
        ImageFormat::Webp => "image/webp"@,
        ImageFormat::Bmp => "image/bmp"@,
    }
}

/// Image operations; changes announce themselves.
pub struct ImageService;

impl ImageService {
    /// The service.
    pub fn new() -> (s: Self) {
        ImageService
    }

    /// Adds an image backed by a file (given what reading it gave); its
    /// identifier, or `None` when the memory limit refuses it.
    pub fn add_image_from_path(
        &self,
        images: &mut ImageStorage,
        ids: &mut IdGenerator,
        path: String,
        name: Option<String>,
        file_data: Option<Vec<u8>>,
        file_size: Option<u64>,
    ) -> (r: Option<u32>)
        requires
            old(images)@.current_memory <= old(images)@.max_memory,
            old(images)@.current_memory + 512 <= usize::MAX,
            !path_read_overflows(path@, opt_bytes_view(file_data)),
        ensures
            final(ids).peek() == (if old(ids).peek() == u32::MAX {
                0
            } else {
                (old(ids).peek() + 1) as u32
            }),
            exists|res: CoreResult<ImageId>|
                #[trigger] stored_with_check(
                    old(images)@,
                    final(images)@,
                    old(ids).peek(),
                    with_opt_name(
                        path_image_view(old(ids).peek(), path@, opt_bytes_view(file_data), file_size),
                        opt_str_view(name),
                    ),
                    res,
                ) && r == (match res {
                    Ok(i) => Some(i),
                    Err(_) => None,
                }),
    {
        let ghost n = opt_str_view(name);
        match add_image_from_path_storage(images, ids, path, name, file_data, file_size) {
            Ok(id) => Some(id),
            Err(_) => None,
        }
    }

    /// Adds an in-memory image; its identifier, or `None` when the memory
    /// limit refuses it.
    pub fn add_image_from_binary(
        &self,
        images: &mut ImageStorage,
        ids: &mut IdGenerator,
        format: dto::ImageFormat,
        data: Vec<u8>,
        name: Option<String>,
    ) -> (r: Option<u32>)
        requires
            old(images)@.current_memory <= old(images)@.max_memory,
            old(images)@.current_memory + data@.len() + 256 <= usize::MAX,
            !header_read_overflows(data@, format_of_dto(format)),
        ensures
            final(ids).peek() == (if old(ids).peek() == u32::MAX {
                0
            } else {
                (old(ids).peek() + 1) as u32
            }),
            exists|res: CoreResult<ImageId>|
                #[trigger] stored_with_check(
                    old(images)@,
                    final(images)@,
                    old(ids).peek(),
                    with_opt_name(binary_image_view(old(ids).peek(), format_of_dto(format), data@), opt_str_view(name)),
                    res,
                ) && r == (match res {
                    Ok(i) => Some(i),
                    Err(_) => None,
                }),
    {
        let f = storage_format(format);
        match add_image_from_binary_storage(images, ids, f, data, name) {
            Ok(id) => Some(id),
            Err(_) => None,
        }
    }

    /// The transfer form of an image, if stored.
    pub fn get_image(&self, images: &ImageStorage, image_id: u32) -> (r: Option<dto::ImageDTO>)
        ensures
            match r {
                Some(d) => images@.images.contains_key(image_id) && dto_describes(d, images@.images[image_id]),
                None => !images@.images.contains_key(image_id),
            },
    {
        match get_image_storage(images, image_id) {
            Ok(Some(img)) => Some(img.to_dto()),
            _ => None,
        }
    }

    /// The path of an image backed by a file.
    pub fn get_image_file_path(&self, images: &ImageStorage, image_id: u32) -> (r: Option<String>)
        ensures
            opt_str_view(r) == (if images@.images.contains_key(image_id) {
                match images@.images[image_id].data {
                    ImageDataView::FilePath(p) => Some(p),
                    _ => None,
                }
            } else {
                None
            }),
    {
        match images.get(image_id) {
            Some(img) => match &img.data {
                ImageData::FilePath(p) => Some(p.clone()),
                _ => None,
            },
            None => None,
        }
    }

    /// The MIME type of an image, when its format is known.
    pub fn get_image_mime_type(&self, images: &ImageStorage, image_id: u32) -> (r: Option<String>)
        ensures
            opt_str_view(r) == (if images@.images.contains_key(image_id) {
                data_mime(images@.images[image_id].data)
            } else {
                None
            }),
    {
        match images.get(image_id) {
            Some(img) => self.get_image_mime_type_internal(&img.data),
            None => None,
        }
    }

    /// The MIME type of image data, when its format is known.
    pub fn get_image_mime_type_internal(&self, image_data: &ImageData) -> (r: Option<String>)
        ensures
            opt_str_view(r) == data_mime(image_data@),
    {
        match image_data.get_format() {
            Some(f) => Some(string_of(f.mime_type())),
            None => None,
        }
    }

    /// Whether an image is stored.
    pub fn image_exists(&self, images: &ImageStorage, image_id: u32) -> (r: bool)
        ensures
            r == images@.images.contains_key(image_id),
    {
        images.contains(image_id)
    }

    /// Replaces an image's data (when given) and sets its name, announcing
    /// the update; whether there was such an image. `path_size` is the size
    /// the file system reports for new path data.
    pub fn update_image(
        &self,
        images: &mut ImageStorage,
        events: &mut Vec<DomainEvent>,
        image_id: u32,
        data: Option<dto::ImageDataDTO>,
        name: Option<String>,
        path_size: Option<u64>,
    ) -> (r: bool)
        ensures
            r == old(images)@.images.contains_key(image_id),
            image_updated(
                old(images)@,
                final(images)@,
                image_id,
                image_after_update(
                    old(images)@.images[image_id],
                    match data {
                        Some(d) => Some(data_of_dto(d)),
                        None => None,
                    },
                    opt_str_view(name),
                    path_size,
                ),
            ),
            event_views(final(events)@) == (if r {
                event_views(old(events)@).push(EventView::ImageUpdated(image_id))
            } else {
                event_views(old(events)@)
            }),
    {
        let storage_data = match data {
            Some(d) => Some(storage_data(d)),
            None => None,
        };
        let result = match update_image_storage(images, image_id, storage_data, name, path_size) {
            Ok(res) => res,
            Err(_) => false,
        };
        if result {
            let ghost before = event_views(events@);
            events.push(DomainEvent::ImageUpdated(image_id));
            assert(event_views(events@) =~= before.push(EventView::ImageUpdated(image_id)));
        }
        result
    }

    /// Replaces where an image's bytes are, announcing the update; whether
    /// there was such an image.
    pub fn update_image_data(
        &self,
        images: &mut ImageStorage,
        events: &mut Vec<DomainEvent>,
        image_id: u32,
        data: dto::ImageDataDTO,
    ) -> (r: bool)
        ensures
            r == old(images)@.images.contains_key(image_id),
            image_updated(
                old(images)@,
                final(images)@,
                image_id,
                ImageView { data: data_of_dto(data), ..old(images)@.images[image_id] },
            ),
            event_views(final(events)@) == (if r {
                event_views(old(events)@).push(EventView::ImageUpdated(image_id))
            } else {
                event_views(old(events)@)
            }),
    {
        let d = storage_data(data);
        let result = match update_image_data_storage(images, image_id, d) {
            Ok(res) => res,
            Err(_) => false,
        };
        if result {
            let ghost before = event_views(events@);
            events.push(DomainEvent::ImageUpdated(image_id));
            assert(event_views(events@) =~= before.push(EventView::ImageUpdated(image_id)));
        }
        result
    }

    /// Sets or clears an image's name, announcing the update; whether there
    /// was such an image.
    pub fn update_image_name(
        &self,
        images: &mut ImageStorage,
        events: &mut Vec<DomainEvent>,
        image_id: u32,
        name: Option<String>,
    ) -> (r: bool)
        ensures
            r == old(images)@.images.contains_key(image_id),
            image_updated(
                old(images)@,
                final(images)@,
                image_id,
                with_opt_name(old(images)@.images[image_id], opt_str_view(name)),
            ),
            event_views(final(events)@) == (if r {
                event_views(old(events)@).push(EventView::ImageUpdated(image_id))
            } else {
                event_views(old(events)@)
            }),
    {
        let result = match update_image_name_storage(images, image_id, name) {
            Ok(res) => res,
            Err(_) => false,
        };
        if result {
            let ghost before = event_views(events@);
            events.push(DomainEvent::ImageUpdated(image_id));
            assert(event_views(events@) =~= before.push(EventView::ImageUpdated(image_id)));
        }
        result
    }

    /// Deletes an image, announcing it; whether there was one.
    pub fn remove_image(&self, images: &mut ImageStorage, events: &mut Vec<DomainEvent>, image_id: u32) -> (r: bool)
        requires
            old(images)@.images.contains_key(image_id) ==> estimated_size_of(old(images)@.images[image_id])
                <= usize::MAX,
        ensures
            r == old(images)@.images.contains_key(image_id),
            final(images)@.images == old(images)@.images.remove(image_id),
            final(images)@.max_memory == old(images)@.max_memory,
            event_views(final(events)@) == (if r {
                event_views(old(events)@).push(EventView::ImageDeleted(image_id))
            } else {
                event_views(old(events)@)
            }),
    {
        let result = match delete_image_storage(images, image_id) {
            Ok(res) => res,
            Err(_) => false,
        };
        if result {
            let ghost before = event_views(events@);
            events.push(DomainEvent::ImageDeleted(image_id));
            assert(event_views(events@) =~= before.push(EventView::ImageDeleted(image_id)));
        }
        result
    }

    /// Lists a marker on an image unless listed; whether there was an image.
    pub fn add_marker_to_image(&self, images: &mut ImageStorage, image_id: u32, marker_id: u32) -> (r: bool)
        ensures
            r == old(images)@.images.contains_key(image_id),
            image_updated(
                old(images)@,
                final(images)@,
                image_id,
                ImageView {
                    marker_ids: push_unique(old(images)@.images[image_id].marker_ids, marker_id),
                    ..old(images)@.images[image_id]
                },
            ),
    {
        match add_marker_to_image_storage(images, image_id, marker_id) {
            Ok(res) => res,
            Err(_) => false,
        }
    }

    /// Drops a marker from an image's list; whether there was an image.
    pub fn remove_marker_from_image(&self, images: &mut ImageStorage, image_id: u32, marker_id: u32) -> (r: bool)
        ensures
            r == old(images)@.images.contains_key(image_id),
            image_updated(
                old(images)@,
                final(images)@,
                image_id,
                ImageView {
                    marker_ids: without(old(images)@.images[image_id].marker_ids, marker_id),
                    ..old(images)@.images[image_id]
                },
            ),
    {
        match remove_marker_from_image_storage(images, image_id, marker_id) {
            Ok(res) => res,
            Err(_) => false,
        }
    }

    /// Empties an image's marker list; whether there was an image.
    pub fn clear_image_markers(&self, images: &mut ImageStorage, image_id: u32) -> (r: bool)
        ensures
            r == old(images)@.images.contains_key(image_id),
            image_updated(
                old(images)@,
                final(images)@,
                image_id,
                ImageView { marker_ids: Seq::empty(), ..old(images)@.images[image_id] },
            ),
    {
        match clear_image_markers_storage(images, image_id) {
            Ok(res) => res,
            Err(_) => false,
        }
    }

    /// An image's marker list (empty for an unknown image).
    pub fn get_image_marker_ids(&self, images: &ImageStorage, image_id: u32) -> (r: CoreResult<Vec<u32>>)
        ensures
            match r {
                Ok(v) => v@ == (if images@.images.contains_key(image_id) {
                    images@.images[image_id].marker_ids
                } else {
                    Seq::empty()
                }),
                Err(_) => false,
            },
    {
        get_image_marker_ids_storage(images, image_id)
    }

    /// The number of images.
    pub fn image_count(&self, images: &ImageStorage) -> (r: CoreResult<usize>)
        ensures
            r == Ok::<usize, CoreError>(images@.images.dom().len() as usize),
            images@.images.dom().len() <= usize::MAX,
    {
        Ok(images.len())
    }

    /// Deletes every image.
    pub fn clear_all(&self, images: &mut ImageStorage)
        ensures
            final(images)@.images == Map::<ImageId, ImageView>::empty(),
            final(images)@.current_memory == 0,
            final(images)@.max_memory == old(images)@.max_memory,
    {
        let _ = clear_all_images_storage(images);
    }

    /// The dimensions and checksum of an image's bytes.
    pub fn process_image_parallel(&self, data: &[u8], format: &ImageFormat) -> (r: ImageProcessingResult)
        requires
            !header_read_overflows(data@, *format),
        ensures
            processed(r, data@, *format),
    {
        let dimensions = self.extract_dimensions(data, format);
        let checksum = self.calculate_checksum(data);
        ImageProcessingResult { width: dimensions.0, height: dimensions.1, checksum: Some(checksum), format: *format }
    }

    /// The dimensions an image header gives, if any.
    pub fn extract_dimensions(&self, data: &[u8], format: &ImageFormat) -> (r: (Option<u32>, Option<u32>))
        requires
            !header_read_overflows(data@, *format),
        ensures
            r == (match dimensions_of(data@, *format) {
                Some((w, h)) => (Some(w), Some(h)),
                None => (None, None),
            }),
    {
        match extract_dimensions_from_bytes(data, format) {
            Some((width, height)) => (Some(width), Some(height)),
            None => (None, None),
        }
    }

    /// The MD5 checksum of some bytes, in lower-case hexadecimal.
    pub fn calculate_checksum(&self, data: &[u8]) -> (r: String)
        ensures
            r@ == lower_hex(md5_digest_of(data@)),
    {
        md5_hex(data)
    }

    /// Processes several images, in order.
    pub fn process_images_batch(&self, images: Vec<(Vec<u8>, ImageFormat)>) -> (r: Vec<ImageProcessingResult>)
        requires
            forall|i: int| 0 <= i < images@.len() ==> !header_read_overflows(#[trigger] images@[i].0@, images@[i].1),
        ensures
            r@.len() == images@.len(),
            forall|i: int| 0 <= i < r@.len() ==> processed(#[trigger] r@[i], images@[i].0@, images@[i].1),
    {
        let mut out: Vec<ImageProcessingResult> = Vec::new();
        let mut i: usize = 0;
        while i < images.len()
            invariant
                i <= images@.len(),
                forall|k: int| 0 <= k < images@.len() ==> !header_read_overflows(#[trigger] images@[k].0@, images@[k].1),
                out@.len() == i,
                forall|k: int| 0 <= k < i ==> processed(#[trigger] out@[k], images@[k].0@, images@[k].1),
            decreases images@.len() - i,
        {
            let r = self.process_image_parallel(images[i].0.as_slice(), &images[i].1);
            out.push(r);
            i = i + 1;
        }
        out
    }
}

} // verus!
