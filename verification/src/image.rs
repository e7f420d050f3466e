use vstd::prelude::*;
use crate::error::{CoreError, CoreResult};
use crate::ids::{IdGenerator, ImageId, MarkerId};
use crate::image_data::{ImageData, ImageDataView, ImageFormat, image_data_format};
use crate::dimension_extractor::{dimensions_of, extract_dimensions_from_bytes, header_read_overflows};
use crate::checksum::{md5_digest_of, md5_hex};
use crate::text::lower_hex;
use crate::project::{clone_opt_string, opt_str_view};
use crate::dto;
use crate::state::{ImageStorage, ImageStorageView};
use crate::project::{lists_values, push_unique};
use crate::collections::{lemma_remove_insert, enumerates, vec_contains, vec_without, without};

verus! {

/// Descriptive data of an image.
#[derive(Debug)]
pub struct ImageMetadata {
    pub id: ImageId,
    pub name: Option<String>,
    pub width: Option<u32>,
    pub height: Option<u32>,
    pub format: Option<ImageFormat>,
    pub size: Option<u64>,
    pub checksum: Option<String>,
}

/// The abstract value of image metadata.
pub struct ImageMetadataView {
    pub id: ImageId,
    pub name: Option<Seq<char>>,
    pub width: Option<u32>,
    pub height: Option<u32>,
    pub format: Option<ImageFormat>,
    pub size: Option<u64>,
    pub checksum: Option<Seq<char>>,
}

impl View for ImageMetadata {
    type V = ImageMetadataView;

    open spec fn view(&self) -> ImageMetadataView {
        ImageMetadataView {
            id: self.id,
            name: opt_str_view(self.name),
            width: self.width,
            height: self.height,
            format: self.format,
            size: self.size,
            checksum: opt_str_view(self.checksum),
        }
    }
}

/// A page: its metadata, where its bytes are, and its markers in order.
#[derive(Debug)]
pub struct Image {
    pub metadata: ImageMetadata,
    pub data: ImageData,
    pub marker_ids: Vec<MarkerId>,
}

/// The abstract value of an image.
pub struct ImageView {
    pub metadata: ImageMetadataView,
    pub data: ImageDataView,
    pub marker_ids: Seq<MarkerId>,
}

impl View for Image {
    type V = ImageView;

    open spec fn view(&self) -> ImageView {
        ImageView { metadata: self.metadata@, data: self.data@, marker_ids: self.marker_ids@ }
    }
}

impl Clone for ImageMetadata {
    fn clone(&self) -> (r: Self)
        ensures
            r@ == self@,
    {
        ImageMetadata {
            id: self.id,
            name: clone_opt_string(&self.name),
            width: self.width,
            height: self.height,
            format: self.format,
            size: self.size,
            checksum: clone_opt_string(&self.checksum),
        }
    }
}

impl Clone for Image {
    fn clone(&self) -> (r: Self)
        ensures
            r@ == self@,
    {
        Image { metadata: self.metadata.clone(), data: self.data.clone(), marker_ids: self.marker_ids.clone() }
    }
}

/// Estimated memory use of an image: its bytes (or a fixed amount for a path
/// or a shared buffer), plus metadata and marker list overhead.
pub open spec fn estimated_size_of(v: ImageView) -> int {
    (match v.data {
        ImageDataView::Binary { data, .. } => data.len() as int,
        ImageDataView::FilePath(_) => 256,
        ImageDataView::SharedBuffer { .. } => 8,
    }) + 256 + v.marker_ids.len() * 4
}

/// The width of optional dimensions.
pub open spec fn width_of(d: Option<(u32, u32)>) -> Option<u32> {
    match d {
        Some((w, _)) => Some(w),
        None => None,
    }
}

/// The height of optional dimensions.
pub open spec fn height_of(d: Option<(u32, u32)>) -> Option<u32> {
    match d {
        Some((_, h)) => Some(h),
        None => None,
    }
}

fn split_dimensions(d: Option<(u32, u32)>) -> (r: (Option<u32>, Option<u32>))
    ensures
        r == (width_of(d), height_of(d)),
{
    match d {
        Some((w, h)) => (Some(w), Some(h)),
        None => (None, None),
    }
}

/// The metadata of a freshly read image file: dimensions and checksum when
/// the file was read and its extension names a format, nothing otherwise.
pub open spec fn path_image_view(
    id: ImageId,
    path: Seq<char>,
    file_data: Option<Seq<u8>>,
    file_size: Option<u64>,
) -> ImageView {
    let format = image_data_format(ImageDataView::FilePath(path));
    let (dims, checksum) = match (file_data, format) {
        (Some(d), Some(f)) => (dimensions_of(d, f), Some(lower_hex(md5_digest_of(d)))),
        _ => (None, None),
    };
    ImageView {
        metadata: ImageMetadataView {
            id,
            name: None,
            width: width_of(dims),
            height: height_of(dims),
            format,
            size: file_size,
            checksum,
        },
        data: ImageDataView::FilePath(path),
        marker_ids: Seq::empty(),
    }
}

/// The image made from an in-memory buffer of the given format.
pub open spec fn binary_image_view(id: ImageId, format: ImageFormat, data: Seq<u8>) -> ImageView {
    let dims = dimensions_of(data, format);
    ImageView {
        metadata: ImageMetadataView {
            id,
            name: None,
            width: width_of(dims),
            height: height_of(dims),
            format: Some(format),
            size: Some(data.len() as u64),
            checksum: Some(lower_hex(md5_digest_of(data))),
        },
        data: ImageDataView::Binary { format, data },
        marker_ids: Seq::empty(),
    }
}

/// The image that stands for a buffer shared with the host.
pub open spec fn shared_image_view(id: ImageId, format: ImageFormat, buffer_id: u32) -> ImageView {
    ImageView {
        metadata: ImageMetadataView {
            id,
            name: None,
            width: None,
            height: None,
            format: Some(format),
            size: None,
            checksum: None,
        },
        data: ImageDataView::SharedBuffer { format, buffer_id },
        marker_ids: Seq::empty(),
    }
}

/// Whether reading the header of the given file contents would overflow.
pub open spec fn path_read_overflows(path: Seq<char>, file_data: Option<Seq<u8>>) -> bool {
    match (file_data, image_data_format(ImageDataView::FilePath(path))) {
        (Some(d), Some(f)) => header_read_overflows(d, f),
        _ => false,
    }
}

fn dto_format(f: ImageFormat) -> (r: dto::ImageFormat)
    ensures
        r == format_to_dto(f),
{
    match f {
        ImageFormat::Jpeg => dto::ImageFormat::Jpeg,
        ImageFormat::Png => dto::ImageFormat::Png,
        ImageFormat::Gif => dto::ImageFormat::Gif,
        ImageFormat::Webp => dto::ImageFormat::Webp,
        ImageFormat::Bmp => dto::ImageFormat::Bmp,
    }
}

pub fn format_from_dto(f: dto::ImageFormat) -> (r: ImageFormat)
    ensures
        format_to_dto(r) == f,
{
    match f {
        dto::ImageFormat::Jpeg => ImageFormat::Jpeg,
        dto::ImageFormat::Png => ImageFormat::Png,
        dto::ImageFormat::Gif => ImageFormat::Gif,
        dto::ImageFormat::Webp => ImageFormat::Webp,
        dto::ImageFormat::Bmp => ImageFormat::Bmp,
    }
}

/// The transfer form of a format (same variant).
pub open spec fn format_to_dto(f: ImageFormat) -> dto::ImageFormat {
    match f {
        ImageFormat::Jpeg => dto::ImageFormat::Jpeg,
        ImageFormat::Png => dto::ImageFormat::Png,
        ImageFormat::Gif => dto::ImageFormat::Gif,
        ImageFormat::Webp => dto::ImageFormat::Webp,
        ImageFormat::Bmp => dto::ImageFormat::Bmp,
    }
}

/// The transfer form of an optional format.
pub open spec fn opt_format_to_dto(f: Option<ImageFormat>) -> Option<dto::ImageFormat> {
    match f {
        Some(g) => Some(format_to_dto(g)),
        None => None,
    }
}

/// Whether a transfer form of an image describes the image value `v`.
pub open spec fn dto_describes(d: dto::ImageDTO, v: ImageView) -> bool {
    &&& d.metadata.id == v.metadata.id
    &&& opt_str_view(d.metadata.name) == v.metadata.name
    &&& d.metadata.width == v.metadata.width
    &&& d.metadata.height == v.metadata.height
    &&& d.metadata.format == opt_format_to_dto(v.metadata.format)
    &&& d.metadata.size == v.metadata.size
    &&& opt_str_view(d.metadata.checksum) == v.metadata.checksum
    &&& d.marker_ids@ == v.marker_ids
    &&& match (d.data, v.data) {
        (dto::ImageDataDTO::FilePath(p), ImageDataView::FilePath(q)) => p@ == q,
        (dto::ImageDataDTO::Binary { format, data }, ImageDataView::Binary { format: f, data: e }) =>
            format == format_to_dto(f) && data@ == e,
        (
            dto::ImageDataDTO::SharedBuffer { format, buffer_id },
            ImageDataView::SharedBuffer { format: f, buffer_id: b },
        ) => format == format_to_dto(f) && buffer_id == b,
        _ => false,
    }
}

/// Two formats with the same transfer form are the same format.
proof fn lemma_format_to_dto_injective(f: ImageFormat, g: ImageFormat)
    requires
        format_to_dto(f) == format_to_dto(g),
    ensures
        f == g,
{
    match f {
        ImageFormat::Jpeg => {},
        ImageFormat::Png => {},
        ImageFormat::Gif => {},
        ImageFormat::Webp => {},
        ImageFormat::Bmp => {},
    }
}

/// A transfer form describes one image value only, so reading back the
/// transfer form of an image (`Image::from_dto(img.to_dto())`) gives the
/// image again: same metadata, same data, same markers.
pub proof fn law_transfer_form_round_trip(d: dto::ImageDTO, v: ImageView, w: ImageView)
    requires
        dto_describes(d, v),
        dto_describes(d, w),
    ensures
        v == w,
{
    match (v.metadata.format, w.metadata.format) {
        (Some(f), Some(g)) => lemma_format_to_dto_injective(f, g),
        _ => {},
    }
    match (v.data, w.data) {
        (ImageDataView::Binary { format: f, .. }, ImageDataView::Binary { format: g, .. }) =>
            lemma_format_to_dto_injective(f, g),
        (ImageDataView::SharedBuffer { format: f, .. }, ImageDataView::SharedBuffer { format: g, .. }) =>
            lemma_format_to_dto_injective(f, g),
        _ => {},
    }
    assert(v.metadata == w.metadata);
}

impl Image {
    /// An image backed by a file, given what reading the file gave: its
    /// contents (if it could be read) and its size (if known).
    pub fn new_from_path(id: ImageId, path: String, file_data: Option<Vec<u8>>, file_size: Option<u64>) -> (img:
        Self)
        requires
            !path_read_overflows(
                path@,
                match file_data {
                    Some(d) => Some(d@),
                    None => None,
                },
            ),
        ensures
            img@ == path_image_view(
                id,
                path@,
                match file_data {
                    Some(d) => Some(d@),
                    None => None,
                },
                file_size,
            ),
    {
        let data = ImageData::FilePath(path);
        let format = data.get_format();
        let (dims, checksum) = match (&file_data, format) {
            (Some(bytes), Some(f)) => (
                extract_dimensions_from_bytes(bytes.as_slice(), &f),
                Some(md5_hex(bytes.as_slice())),
            ),
            _ => (None, None),
        };
        let (width, height) = split_dimensions(dims);
        Image {
            metadata: ImageMetadata { id, name: None, width, height, format, size: file_size, checksum },
            data,
            marker_ids: Vec::new(),
        }
    }

    /// An image held in memory: dimensions read from its header, size and
    /// MD5 checksum computed.
    pub fn new_from_binary(id: ImageId, format: ImageFormat, data: Vec<u8>) -> (img: Self)
        requires
            !header_read_overflows(data@, format),
        ensures
            img@ == binary_image_view(id, format, data@),
    {
        let dims = extract_dimensions_from_bytes(data.as_slice(), &format);
        let checksum = md5_hex(data.as_slice());
        let (width, height) = split_dimensions(dims);
        let size = data.len() as u64;
        Image {
            metadata: ImageMetadata {
                id,
                name: None,
                width,
                height,
                format: Some(format),
                size: Some(size),
                checksum: Some(checksum),
            },
            data: ImageData::Binary { format, data },
            marker_ids: Vec::new(),
        }
    }

    /// An image whose bytes stay in a buffer shared with the host: nothing is
    /// known of its dimensions, size or checksum yet.
    pub fn new_from_shared_buffer(id: ImageId, format: ImageFormat, buffer_id: u32) -> (img: Self)
        ensures
            img@ == shared_image_view(id, format, buffer_id),
    {
        Image {
            metadata: ImageMetadata {
                id,
                name: None,
                width: None,
                height: None,
                format: Some(format),
                size: None,
                checksum: None,
            },
            data: ImageData::SharedBuffer { format, buffer_id },
            marker_ids: Vec::new(),
        }
    }

    /// The same image, named.
    pub fn with_name(self, name: String) -> (img: Self)
        ensures
            img@ == (ImageView {
                metadata: ImageMetadataView { name: Some(name@), ..self@.metadata },
                ..self@
            }),
    {
        let mut s = self;
        s.metadata.name = Some(name);
        s
    }

    /// The same image with the given dimensions.
    pub fn with_dimensions(self, width: u32, height: u32) -> (img: Self)
        ensures
            img@ == (ImageView {
                metadata: ImageMetadataView { width: Some(width), height: Some(height), ..self@.metadata },
                ..self@
            }),
    {
        let mut s = self;
        s.metadata.width = Some(width);
        s.metadata.height = Some(height);
        s
    }

    /// The image's identifier.
    pub fn id(&self) -> (r: ImageId)
        ensures
            r == self@.metadata.id,
    {
        self.metadata.id
    }

    /// The image's name, if it has one.
    pub fn name(&self) -> (r: &Option<String>)
        ensures
            opt_str_view(*r) == self@.metadata.name,
    {
        &self.metadata.name
    }

    /// Estimated memory use of the image.
    pub fn estimated_size(&self) -> (r: usize)
        requires
            estimated_size_of(self@) <= usize::MAX,
        ensures
            r == estimated_size_of(self@),
    {
        let data_size: usize = match &self.data {
            ImageData::Binary { data, .. } => data.len(),
            ImageData::FilePath(_) => 256,
            ImageData::SharedBuffer { .. } => 8,
        };
        data_size + 256 + (self.marker_ids.len() * 4)
    }

    /// The transfer form of the image.
    pub fn to_dto(&self) -> (d: dto::ImageDTO)
        ensures
            dto_describes(d, self@),
    {
        let format = match self.metadata.format {
            Some(f) => Some(dto_format(f)),
            None => None,
        };
        let data = match &self.data {
            ImageData::FilePath(p) => dto::ImageDataDTO::FilePath(p.clone()),
            ImageData::Binary { format, data } => dto::ImageDataDTO::Binary {
                format: dto_format(*format),
                data: data.clone(),
            },
            ImageData::SharedBuffer { format, buffer_id } => dto::ImageDataDTO::SharedBuffer {
                format: dto_format(*format),
                buffer_id: *buffer_id,
            },
        };
        dto::ImageDTO {
            metadata: dto::ImageMetadataDTO {
                id: self.metadata.id,
                name: clone_opt_string(&self.metadata.name),
                width: self.metadata.width,
                height: self.metadata.height,
                format,
                size: self.metadata.size,
                checksum: clone_opt_string(&self.metadata.checksum),
            },
            data,
            marker_ids: self.marker_ids.clone(),
        }
    }

    /// The image described by a transfer form.
    pub fn from_dto(d: dto::ImageDTO) -> (img: Self)
        ensures
            dto_describes(d, img@),
    {
        let format = match d.metadata.format {
            Some(f) => Some(format_from_dto(f)),
            None => None,
        };
        let data = match d.data {
            dto::ImageDataDTO::FilePath(p) => ImageData::FilePath(p),
            dto::ImageDataDTO::Binary { format, data } => ImageData::Binary {
                format: format_from_dto(format),
                data,
            },
            dto::ImageDataDTO::SharedBuffer { format, buffer_id } => ImageData::SharedBuffer {
                format: format_from_dto(format),
                buffer_id,
            },
        };
        Image {
            metadata: ImageMetadata {
                id: d.metadata.id,
                name: d.metadata.name,
                width: d.metadata.width,
                height: d.metadata.height,
                format,
                size: d.metadata.size,
                checksum: d.metadata.checksum,
            },
            data,
            marker_ids: d.marker_ids,
        }
    }
}

/// An image value with its name set as given.
pub open spec fn with_opt_name(v: ImageView, name: Option<Seq<char>>) -> ImageView {
    ImageView { metadata: ImageMetadataView { name, ..v.metadata }, ..v }
}

/// The abstract value of an optional byte vector.
pub open spec fn opt_bytes_view(d: Option<Vec<u8>>) -> Option<Seq<u8>> {
    match d {
        Some(v) => Some(v@),
        None => None,
    }
}

/// What storing an image value under `id` with the memory check does to the
/// store, and what it returns.
pub open spec fn stored_with_check(
    old_s: ImageStorageView,
    new_s: ImageStorageView,
    id: ImageId,
    img: ImageView,
    r: CoreResult<ImageId>,
) -> bool {
    if old_s.current_memory + estimated_size_of(img) > old_s.max_memory {
        &&& r == Err::<ImageId, CoreError>(
            CoreError::MemoryLimitExceeded {
                requested: estimated_size_of(img) as usize,
                available: (old_s.max_memory - old_s.current_memory) as usize,
            },
        )
        &&& new_s == old_s
    } else {
        &&& r == Ok::<ImageId, CoreError>(id)
        &&& new_s.images == old_s.images.insert(id, img)
        &&& new_s.current_memory == old_s.current_memory + estimated_size_of(img)
        &&& new_s.max_memory == old_s.max_memory
    }
}

fn name_image(image: Image, name: Option<String>) -> (r: Image)
    ensures
        r@ == (match name {
            Some(n) => with_opt_name(image@, Some(n@)),
            None => image@,
        }),
{
    match name {
        Some(n) => image.with_name(n),
        None => image,
    }
}

fn store_checked(storage: &mut ImageStorage, id: ImageId, image: Image) -> (r: CoreResult<ImageId>)
    requires
        old(storage)@.current_memory <= old(storage)@.max_memory,
        old(storage)@.current_memory + estimated_size_of(image@) <= usize::MAX,
    ensures
        stored_with_check(old(storage)@, final(storage)@, id, image@, r),
{
    match storage.insert_with_memory_check(id, image) {
        Ok(()) => Ok(id),
        Err(e) => Err(e),
    }
}

/// Adds an image backed by a file under a fresh identifier, given what
/// reading the file gave (its contents and size, when available).
pub fn add_image_from_path_storage(
    storage: &mut ImageStorage,
    ids: &mut IdGenerator,
    path: String,
    name: Option<String>,
    file_data: Option<Vec<u8>>,
    file_size: Option<u64>,
) -> (r: CoreResult<ImageId>)
    requires
        old(storage)@.current_memory <= old(storage)@.max_memory,
        old(storage)@.current_memory + 512 <= usize::MAX,
        !path_read_overflows(path@, opt_bytes_view(file_data)),
    ensures
        final(ids).peek() == (if old(ids).peek() == u32::MAX { 0 } else { (old(ids).peek() + 1) as u32 }),
        stored_with_check(
            old(storage)@,
            final(storage)@,
            old(ids).peek(),
            with_opt_name(
                path_image_view(old(ids).peek(), path@, opt_bytes_view(file_data), file_size),
                match name {
                    Some(n) => Some(n@),
                    None => None,
                },
            ),
            r,
        ),
{
    let id = ids.next();
    let image = Image::new_from_path(id, path, file_data, file_size);
    let image = name_image(image, name);
    store_checked(storage, id, image)
}

/// Adds an in-memory image under a fresh identifier.
pub fn add_image_from_binary_storage(
    storage: &mut ImageStorage,
    ids: &mut IdGenerator,
    format: ImageFormat,
    data: Vec<u8>,
    name: Option<String>,
) -> (r: CoreResult<ImageId>)
    requires
        old(storage)@.current_memory <= old(storage)@.max_memory,
        old(storage)@.current_memory + data@.len() + 256 <= usize::MAX,
        !header_read_overflows(data@, format),
    ensures
        final(ids).peek() == (if old(ids).peek() == u32::MAX { 0 } else { (old(ids).peek() + 1) as u32 }),
        stored_with_check(
            old(storage)@,
            final(storage)@,
            old(ids).peek(),
            with_opt_name(
                binary_image_view(old(ids).peek(), format, data@),
                match name {
                    Some(n) => Some(n@),
                    None => None,
                },
            ),
            r,
        ),
{
    let id = ids.next();
    let image = Image::new_from_binary(id, format, data);
    let image = name_image(image, name);
    store_checked(storage, id, image)
}

/// Adds an image kept in a buffer shared with the host, under a fresh
/// identifier.
pub fn add_image_from_shared_buffer_storage(
    storage: &mut ImageStorage,
    ids: &mut IdGenerator,
    format: ImageFormat,
    buffer_id: u32,
    name: Option<String>,
) -> (r: CoreResult<ImageId>)
    requires
        old(storage)@.current_memory <= old(storage)@.max_memory,
        old(storage)@.current_memory + 264 <= usize::MAX,
    ensures
        final(ids).peek() == (if old(ids).peek() == u32::MAX { 0 } else { (old(ids).peek() + 1) as u32 }),
        stored_with_check(
            old(storage)@,
            final(storage)@,
            old(ids).peek(),
            with_opt_name(
                shared_image_view(old(ids).peek(), format, buffer_id),
                match name {
                    Some(n) => Some(n@),
                    None => None,
                },
            ),
            r,
        ),
{
    let id = ids.next();
    let image = Image::new_from_shared_buffer(id, format, buffer_id);
    let image = name_image(image, name);
    store_checked(storage, id, image)
}

/// A copy of the stored image, if any.
pub fn get_image_storage(storage: &ImageStorage, id: ImageId) -> (r: CoreResult<Option<Image>>)
    ensures
        match r {
            Ok(Some(i)) => storage@.images.contains_key(id) && i@ == storage@.images[id],
            Ok(None) => !storage@.images.contains_key(id),
            Err(_) => false,
        },
{
    Ok(storage.get_arc(id))
}

/// The views of a sequence of images.
pub open spec fn image_views(v: Seq<Image>) -> Seq<ImageView> {
    v.map_values(|i: Image| i@)
}

/// A copy of every stored image, in the store's own order.
pub fn get_all_images_storage(storage: &ImageStorage) -> (r: CoreResult<Vec<Image>>)
    ensures
        match r {
            Ok(v) => lists_values(image_views(v@), storage@.images),
            Err(_) => false,
        },
{
    let keys = storage.keys();
    let mut out: Vec<Image> = Vec::new();
    let mut i: usize = 0;
    while i < keys.len()
        invariant
            i <= keys@.len(),
            enumerates(keys@, storage@.images.dom()),
            out@.len() == i,
            forall|j: int| 0 <= j < i ==> out@[j]@ == storage@.images[keys@[j]],
        decreases keys@.len() - i,
    {
        assert(storage@.images.dom().contains(keys@[i as int]));
        let img = storage.get(keys[i]).unwrap();
        out.push(img.clone());
        i = i + 1;
    }
    assert(enumerates(keys@, storage@.images.dom()) && keys@.len() == image_views(out@).len() && forall|
        j: int,
    | 0 <= j < out@.len() ==> image_views(out@)[j] == storage@.images[#[trigger] keys@[j]]);
    Ok(out)
}

/// The store after the image under `id`, if any, is replaced by `f(image)`;
/// the memory estimate and limit stay.
pub open spec fn image_updated(
    old_s: ImageStorageView,
    new_s: ImageStorageView,
    id: ImageId,
    new_img: ImageView,
) -> bool {
    &&& new_s.current_memory == old_s.current_memory
    &&& new_s.max_memory == old_s.max_memory
    &&& new_s.images == (if old_s.images.contains_key(id) {
        old_s.images.insert(id, new_img)
    } else {
        old_s.images
    })
}

/// Replaces where an image's bytes are (metadata untouched); `Ok(false)`
/// when there is no such image.
pub fn update_image_data_storage(storage: &mut ImageStorage, id: ImageId, data: ImageData) -> (r: CoreResult<bool>)
    ensures
        r == Ok::<bool, CoreError>(old(storage)@.images.contains_key(id)),
        image_updated(
            old(storage)@,
            final(storage)@,
            id,
            ImageView { data: data@, ..old(storage)@.images[id] },
        ),
{
    match storage.take(id) {
        Some(mut image) => {
            image.data = data;
            storage.put(id, image);
            proof {
                lemma_remove_insert(old(storage)@.images, id, storage@.images[id]);
            }
            Ok(true)
        },
        None => {
            assert(storage@.images =~= old(storage)@.images);
            Ok(false)
        },
    }
}

/// Sets or clears an image's name; `Ok(false)` when there is no such image.
pub fn update_image_name_storage(storage: &mut ImageStorage, id: ImageId, name: Option<String>) -> (r:
    CoreResult<bool>)
    ensures
        r == Ok::<bool, CoreError>(old(storage)@.images.contains_key(id)),
        image_updated(
            old(storage)@,
            final(storage)@,
            id,
            with_opt_name(old(storage)@.images[id], opt_str_view(name)),
        ),
{
    match storage.take(id) {
        Some(mut image) => {
            image.metadata.name = name;
            storage.put(id, image);
            proof {
                lemma_remove_insert(old(storage)@.images, id, storage@.images[id]);
            }
            Ok(true)
        },
        None => {
            assert(storage@.images =~= old(storage)@.images);
            Ok(false)
        },
    }
}

/// The size recorded for new image data: the buffer length, the file size
/// the file system reported for a path, nothing for a shared buffer.
pub open spec fn data_size_of(d: ImageDataView, path_size: Option<u64>) -> Option<u64> {
    match d {
        ImageDataView::Binary { data, .. } => Some(data.len() as u64),
        ImageDataView::FilePath(_) => path_size,
        ImageDataView::SharedBuffer { .. } => None,
    }
}

/// The image value after `update_image_storage`.
pub open spec fn image_after_update(
    v: ImageView,
    data: Option<ImageDataView>,
    name: Option<Seq<char>>,
    path_size: Option<u64>,
) -> ImageView {
    let v1 = match data {
        Some(d) => ImageView {
            metadata: ImageMetadataView {
                format: image_data_format(d),
                size: data_size_of(d, path_size),
                ..v.metadata
            },
            data: d,
            ..v
        },
        None => v,
    };
    with_opt_name(v1, name)
}

/// Replaces an image's data (recomputing format and size) when given, and
/// sets its name; `Ok(false)` when there is no such image. `path_size` is
/// the size the file system reports for new path data.
pub fn update_image_storage(
    storage: &mut ImageStorage,
    id: ImageId,
    data: Option<ImageData>,
    name: Option<String>,
    path_size: Option<u64>,
) -> (r: CoreResult<bool>)
    ensures
        r == Ok::<bool, CoreError>(old(storage)@.images.contains_key(id)),
        image_updated(
            old(storage)@,
            final(storage)@,
            id,
            image_after_update(
                old(storage)@.images[id],
                match data {
                    Some(d) => Some(d@),
                    None => None,
                },
                opt_str_view(name),
                path_size,
            ),
        ),
{
    match storage.take(id) {
        Some(mut image) => {
            match data {
                Some(d) => {
                    image.metadata.format = d.get_format();
                    image.metadata.size = match &d {
                        ImageData::Binary { data, .. } => Some(data.len() as u64),
                        ImageData::FilePath(_) => path_size,
                        ImageData::SharedBuffer { .. } => None,
                    };
                    image.data = d;
                },
                None => {},
            }
            image.metadata.name = name;
            storage.put(id, image);
            proof {
                lemma_remove_insert(old(storage)@.images, id, storage@.images[id]);
            }
            Ok(true)
        },
        None => {
            assert(storage@.images =~= old(storage)@.images);
            Ok(false)
        },
    }
}

/// Records an image's dimensions; `Ok(false)` when there is no such image.
pub fn update_image_dimensions_storage(storage: &mut ImageStorage, id: ImageId, width: u32, height: u32) -> (r:
    CoreResult<bool>)
    ensures
        r == Ok::<bool, CoreError>(old(storage)@.images.contains_key(id)),
        image_updated(
            old(storage)@,
            final(storage)@,
            id,
            ImageView {
                metadata: ImageMetadataView {
                    width: Some(width),
                    height: Some(height),
                    ..old(storage)@.images[id].metadata
                },
                ..old(storage)@.images[id]
            },
        ),
{
    match storage.take(id) {
        Some(image) => {
            let image = image.with_dimensions(width, height);
            storage.put(id, image);
            proof {
                lemma_remove_insert(old(storage)@.images, id, storage@.images[id]);
            }
            Ok(true)
        },
        None => {
            assert(storage@.images =~= old(storage)@.images);
            Ok(false)
        },
    }
}

/// Deletes an image (its size leaves the memory estimate); `Ok(true)` when
/// there was one.
pub fn delete_image_storage(storage: &mut ImageStorage, id: ImageId) -> (r: CoreResult<bool>)
    requires
        old(storage)@.images.contains_key(id) ==> estimated_size_of(old(storage)@.images[id]) <= usize::MAX,
    ensures
        r == Ok::<bool, CoreError>(old(storage)@.images.contains_key(id)),
        final(storage)@.images == old(storage)@.images.remove(id),
        final(storage)@.max_memory == old(storage)@.max_memory,
        final(storage)@.current_memory == (if old(storage)@.images.contains_key(id) {
            let s = estimated_size_of(old(storage)@.images[id]);
            if old(storage)@.current_memory >= s {
                (old(storage)@.current_memory - s) as usize
            } else {
                0
            }
        } else {
            old(storage)@.current_memory
        }),
{
    let removed = storage.remove(id);
    Ok(removed.is_some())
}

/// Deletes every image and resets the memory estimate.
pub fn clear_all_images_storage(storage: &mut ImageStorage) -> (r: CoreResult<()>)
    ensures
        r == Ok::<(), CoreError>(()),
        final(storage)@.images == Map::<ImageId, ImageView>::empty(),
        final(storage)@.current_memory == 0,
        final(storage)@.max_memory == old(storage)@.max_memory,
{
    storage.clear();
    Ok(())
}

/// The number of images.
pub fn image_count_storage(storage: &ImageStorage) -> (r: CoreResult<usize>)
    ensures
        r == Ok::<usize, CoreError>(storage@.images.dom().len() as usize),
{
    Ok(storage.len())
}

/// Whether there is an image with this identifier.
pub fn image_exists_storage(storage: &ImageStorage, id: ImageId) -> (r: CoreResult<bool>)
    ensures
        r == Ok::<bool, CoreError>(storage@.images.contains_key(id)),
{
    Ok(storage.contains(id))
}

/// The running memory estimate.
pub fn current_memory_usage_storage(storage: &ImageStorage) -> (r: CoreResult<usize>)
    ensures
        r == Ok::<usize, CoreError>(storage@.current_memory),
{
    Ok(storage.current_memory_usage())
}

/// Appends a marker to an image's marker list unless already listed;
/// `Ok(false)` when there is no such image.
pub fn add_marker_to_image_storage(storage: &mut ImageStorage, image_id: ImageId, marker_id: MarkerId) -> (r:
    CoreResult<bool>)
    ensures
        r == Ok::<bool, CoreError>(old(storage)@.images.contains_key(image_id)),
        image_updated(
            old(storage)@,
            final(storage)@,
            image_id,
            ImageView {
                marker_ids: push_unique(old(storage)@.images[image_id].marker_ids, marker_id),
                ..old(storage)@.images[image_id]
            },
        ),
{
    match storage.take(image_id) {
        Some(mut image) => {
            if !vec_contains(&image.marker_ids, marker_id) {
                image.marker_ids.push(marker_id);
            }
            storage.put(image_id, image);
            proof {
                lemma_remove_insert(old(storage)@.images, image_id, storage@.images[image_id]);
            }
            Ok(true)
        },
        None => {
            assert(storage@.images =~= old(storage)@.images);
            Ok(false)
        },
    }
}

/// Drops a marker from an image's marker list; `Ok(false)` when there is no
/// such image.
pub fn remove_marker_from_image_storage(storage: &mut ImageStorage, image_id: ImageId, marker_id: MarkerId) -> (r:
    CoreResult<bool>)
    ensures
        r == Ok::<bool, CoreError>(old(storage)@.images.contains_key(image_id)),
        image_updated(
            old(storage)@,
            final(storage)@,
            image_id,
            ImageView {
                marker_ids: without(old(storage)@.images[image_id].marker_ids, marker_id),
                ..old(storage)@.images[image_id]
            },
        ),
{
    match storage.take(image_id) {
        Some(mut image) => {
            image.marker_ids = vec_without(&image.marker_ids, marker_id);
            storage.put(image_id, image);
            proof {
                lemma_remove_insert(old(storage)@.images, image_id, storage@.images[image_id]);
            }
            Ok(true)
        },
        None => {
            assert(storage@.images =~= old(storage)@.images);
            Ok(false)
        },
    }
}

/// Empties an image's marker list; `Ok(false)` when there is no such image.
pub fn clear_image_markers_storage(storage: &mut ImageStorage, image_id: ImageId) -> (r: CoreResult<bool>)
    ensures
        r == Ok::<bool, CoreError>(old(storage)@.images.contains_key(image_id)),
        image_updated(
            old(storage)@,
            final(storage)@,
            image_id,
            ImageView { marker_ids: Seq::empty(), ..old(storage)@.images[image_id] },
        ),
{
    match storage.take(image_id) {
        Some(mut image) => {
            image.marker_ids = Vec::new();
            storage.put(image_id, image);
            proof {
                lemma_remove_insert(old(storage)@.images, image_id, storage@.images[image_id]);
            }
            Ok(true)
        },
        None => {
            assert(storage@.images =~= old(storage)@.images);
            Ok(false)
        },
    }
}

/// An image's marker list, or none when there is no such image.
pub fn get_image_marker_ids_storage(storage: &ImageStorage, image_id: ImageId) -> (r: CoreResult<Vec<MarkerId>>)
    ensures
        match r {
            Ok(v) => v@ == (if storage@.images.contains_key(image_id) {
                storage@.images[image_id].marker_ids
            } else {
                Seq::empty()
            }),
            Err(_) => false,
        },
{
    match storage.get(image_id) {
        Some(img) => Ok(img.marker_ids.clone()),
        None => Ok(Vec::new()),
    }
}

} // verus!
