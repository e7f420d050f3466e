use vstd::prelude::*;
use crate::error::{CoreError, CoreResult};
use crate::ids::ImageId;
use crate::image_data::{ImageFormat, image_data_format};
use crate::image::{ImageView, ImageMetadataView, update_image_dimensions_storage, image_updated};
use crate::dimension_extractor::{dimensions_of, extract_dimensions_from_bytes, header_read_overflows};
use crate::state::{ImageStorage, ImageStorageView, ThumbnailStorage};
use crate::text::{decimal, push_decimal, push_str, string_from_chars};
use base64::Engine;

verus! {

/// Side length, in pixels, of the box a thumbnail fits in.
pub const DEFAULT_THUMBNAIL_SIZE: u32 = 200;

/// A rendered thumbnail as handed to the front end.
#[derive(Debug)]
pub struct ThumbnailData {
    pub image_id: ImageId,
    pub data: Vec<u8>,
    pub format: ImageFormat,
    pub width: u32,
    pub height: u32,
}

/// The abstract value of a thumbnail.
pub struct ThumbnailView {
    pub image_id: ImageId,
    pub data: Seq<u8>,
    pub format: ImageFormat,
    pub width: u32,
    pub height: u32,
}

impl View for ThumbnailData {
    type V = ThumbnailView;

    open spec fn view(&self) -> ThumbnailView {
        ThumbnailView {
            image_id: self.image_id,
            data: self.data@,
            format: self.format,
            width: self.width,
            height: self.height,
        }
    }
}

/// Settings of thumbnail rendering.
#[derive(Debug, Clone, Copy)]
pub struct ProcessingConfig {
    pub thumbnail_size: u32,
    pub jpeg_quality: u8,
    pub parallel_threshold: usize,
}

impl Default for ProcessingConfig {
    /// Thumbnails of 200 pixels, JPEG quality 85, parallel work above 1 MiB.
    fn default() -> (c: Self)
        ensures
            c.thumbnail_size == DEFAULT_THUMBNAIL_SIZE,
            c.jpeg_quality == 85,
            c.parallel_threshold == 1024 * 1024,
    {
        ProcessingConfig { thumbnail_size: DEFAULT_THUMBNAIL_SIZE, jpeg_quality: 85, parallel_threshold: 1024 * 1024 }
    }
}

/// A stored thumbnail as it is handed out: JPEG, in the default box.
pub open spec fn stored_thumbnail(image_id: ImageId, data: Seq<u8>) -> ThumbnailView {
    ThumbnailView {
        image_id,
        data,
        format: ImageFormat::Jpeg,
        width: DEFAULT_THUMBNAIL_SIZE,
        height: DEFAULT_THUMBNAIL_SIZE,
    }
}

fn make_stored_thumbnail(image_id: ImageId, data: Vec<u8>) -> (t: ThumbnailData)
    ensures
        t@ == stored_thumbnail(image_id, data@),
{
    ThumbnailData {
        image_id,
        data,
        format: ImageFormat::Jpeg,
        width: DEFAULT_THUMBNAIL_SIZE,
        height: DEFAULT_THUMBNAIL_SIZE,
    }
}

/// The text of the error for a missing image.
pub open spec fn image_not_found_text(id: ImageId) -> Seq<char> {
    "Image with id "@ + decimal(id as nat) + " not found"@
}

/// Whether `e` is the not-found error for image `id`.
pub open spec fn is_image_not_found(e: CoreError, id: ImageId) -> bool {
    e matches CoreError::NotFound(m) && m@ == image_not_found_text(id)
}

/// The not-found error for an image.
pub fn image_not_found(id: ImageId) -> (e: CoreError)
    ensures
        is_image_not_found(e, id),
{
    let mut m: Vec<char> = Vec::new();
    push_str(&mut m, "Image with id ");
    push_decimal(&mut m, id as u64);
    push_str(&mut m, " not found");
    assert(m@ =~= image_not_found_text(id));
    CoreError::NotFound(string_from_chars(&m))
}

/// What to do about a requested thumbnail.
#[derive(Debug)]
pub enum ThumbnailStep {
    /// Hand this stored thumbnail to the front end.
    Push(ThumbnailData),
    /// Render the thumbnail; a placeholder now marks it as being rendered.
    Generate,
    /// The thumbnail is being rendered already: nothing to do now.
    Pending,
}

/// Handles a request for one image's thumbnail: refused for an unknown
/// image; a stored thumbnail is handed out; a placeholder (empty) entry
/// means the thumbnail is being rendered, and nothing is to be done;
/// otherwise a placeholder is stored and the thumbnail is to be rendered.
pub fn request_thumbnail(images: &ImageStorage, thumbnails: &mut ThumbnailStorage, image_id: ImageId) -> (r:
    CoreResult<ThumbnailStep>)
    ensures
        !images@.images.contains_key(image_id) ==> (r matches Err(e) && is_image_not_found(e, image_id))
            && final(thumbnails)@ == old(thumbnails)@,
        images@.images.contains_key(image_id) && old(thumbnails)@.contains_key(image_id) && old(thumbnails)@[image_id].len()
            > 0 ==> (r matches Ok(ThumbnailStep::Push(t)) && t@ == stored_thumbnail(image_id, old(thumbnails)@[image_id]))
            && final(thumbnails)@ == old(thumbnails)@,
        images@.images.contains_key(image_id) && old(thumbnails)@.contains_key(image_id) && old(thumbnails)@[image_id].len()
            == 0 ==> (r matches Ok(ThumbnailStep::Pending)) && final(thumbnails)@ == old(thumbnails)@,
        images@.images.contains_key(image_id) && !old(thumbnails)@.contains_key(image_id) ==> (r matches Ok(
            ThumbnailStep::Generate,
        )) && final(thumbnails)@ == old(thumbnails)@.insert(image_id, Seq::<u8>::empty()),
{
    if !images.contains(image_id) {
        return Err(image_not_found(image_id));
    }
    match thumbnails.get(image_id) {
        Some(t) => {
            if t.len() == 0 {
                return Ok(ThumbnailStep::Pending);
            }
            return Ok(ThumbnailStep::Push(make_stored_thumbnail(image_id, t.clone())));
        },
        None => {},
    }
    let placeholder: Vec<u8> = Vec::new();
    thumbnails.insert(image_id, placeholder);
    assert(placeholder@ =~= Seq::<u8>::empty());
    Ok(ThumbnailStep::Generate)
}

/// The outcome of a batch request: stored thumbnails to hand out, and images
/// whose thumbnails are to be rendered.
#[derive(Debug)]
pub struct ThumbnailBatch {
    pub ready: Vec<ThumbnailData>,
    pub pending: Vec<ImageId>,
}

/// A batch request over `ids`, in order, from the thumbnails `thumbs`: unknown
/// images are skipped; a non-empty stored thumbnail is handed out; an image
/// without an entry gets a placeholder and is to be rendered; an image with a
/// placeholder is being rendered already and is skipped. Gives the handed-out
/// thumbnails, the images to render and the thumbnails after the request.
pub open spec fn batch_plan(ids: Seq<ImageId>, images: Set<ImageId>, thumbs: Map<ImageId, Seq<u8>>) -> (
    Seq<ThumbnailView>,
    Seq<ImageId>,
    Map<ImageId, Seq<u8>>,
)
    decreases ids.len(),
{
    if ids.len() == 0 {
        (Seq::empty(), Seq::empty(), thumbs)
    } else {
        let (ready, pending, t) = batch_plan(ids.drop_last(), images, thumbs);
        let id = ids.last();
        if !images.contains(id) {
            (ready, pending, t)
        } else if t.contains_key(id) && t[id].len() > 0 {
            (ready.push(stored_thumbnail(id, t[id])), pending, t)
        } else if !t.contains_key(id) {
            (ready, pending.push(id), t.insert(id, Seq::empty()))
        } else {
            (ready, pending, t)
        }
    }
}

/// The views of a list of thumbnails.
pub open spec fn thumbnail_views(v: Seq<ThumbnailData>) -> Seq<ThumbnailView> {
    v.map_values(|t: ThumbnailData| t@)
}

/// Handles a request for the thumbnails of several images (see `batch_plan`).
pub fn request_thumbnails_batch(images: &ImageStorage, thumbnails: &mut ThumbnailStorage, image_ids: &Vec<ImageId>) -> (r:
    ThumbnailBatch)
    ensures
        (thumbnail_views(r.ready@), r.pending@, final(thumbnails)@) == batch_plan(
            image_ids@,
            images@.images.dom(),
            old(thumbnails)@,
        ),
{
    let mut ready: Vec<ThumbnailData> = Vec::new();
    let mut pending: Vec<ImageId> = Vec::new();
    let mut i: usize = 0;
    while i < image_ids.len()
        invariant
            i <= image_ids@.len(),
            (thumbnail_views(ready@), pending@, thumbnails@) == batch_plan(
                image_ids@.take(i as int),
                images@.images.dom(),
                old(thumbnails)@,
            ),
        decreases image_ids@.len() - i,
    {
        let id = image_ids[i];
        let ghost prefix = image_ids@.take(i as int);
        assert(image_ids@.take(i + 1).drop_last() =~= prefix);
        if images.contains(id) {
            let stored = match thumbnails.get(id) {
                Some(t) => Some(t.clone()),
                None => None,
            };
            match stored {
                Some(t) => {
                    if t.len() > 0 {
                        let ghost before = ready@;
                        ready.push(make_stored_thumbnail(id, t));
                        assert(thumbnail_views(ready@) =~= thumbnail_views(before).push(
                            stored_thumbnail(id, thumbnails@[id]),
                        ));
                    }
                },
                None => {
                    let placeholder: Vec<u8> = Vec::new();
                    assert(placeholder@ =~= Seq::<u8>::empty());
                    thumbnails.insert(id, placeholder);
                    pending.push(id);
                },
            }
        }
        i = i + 1;
    }
    assert(image_ids@.take(image_ids@.len() as int) =~= image_ids@);
    ThumbnailBatch { ready, pending }
}

/// Records a thumbnail rendered from an image's bytes: refused for an unknown
/// image; otherwise the image's dimensions are filled in from the bytes'
/// header when it had none and the header gives them, the thumbnail is
/// stored, and it is returned in the box of `ProcessingConfig::default()`.
pub fn store_generated_thumbnail(
    images: &mut ImageStorage,
    thumbnails: &mut ThumbnailStorage,
    image_id: ImageId,
    image_bytes: &Vec<u8>,
    thumbnail: Vec<u8>,
) -> (r: CoreResult<ThumbnailData>)
    requires
        old(images)@.images.contains_key(image_id) ==> match image_data_format(
            old(images)@.images[image_id].data,
        ) {
            Some(f) => !header_read_overflows(image_bytes@, f),
            None => true,
        },
    ensures
        !old(images)@.images.contains_key(image_id) ==> (r matches Err(e) && is_image_not_found(e, image_id))
            && final(images)@ == old(images)@ && final(thumbnails)@ == old(thumbnails)@,
        old(images)@.images.contains_key(image_id) ==> {
            let img = old(images)@.images[image_id];
            let dims = match image_data_format(img.data) {
                Some(f) => dimensions_of(image_bytes@, f),
                None => None,
            };
            &&& r matches Ok(t) && t@ == stored_thumbnail(image_id, thumbnail@)
            &&& final(thumbnails)@ == old(thumbnails)@.insert(image_id, thumbnail@)
            &&& match dims {
                Some((w, h)) if img.metadata.width is None || img.metadata.height is None => image_updated(
                    old(images)@,
                    final(images)@,
                    image_id,
                    ImageView {
                        metadata: ImageMetadataView { width: Some(w), height: Some(h), ..img.metadata },
                        ..img
                    },
                ),
                _ => final(images)@ == old(images)@,
            }
        },
{
    let (missing_dims, format) = match images.get(image_id) {
        Some(img) => (img.metadata.width.is_none() || img.metadata.height.is_none(), img.data.get_format()),
        None => {
            return Err(image_not_found(image_id));
        },
    };
    let config = ProcessingConfig::default();
    if missing_dims {
        match format {
            Some(f) => match extract_dimensions_from_bytes(image_bytes.as_slice(), &f) {
                Some((w, h)) => {
                    let _ = update_image_dimensions_storage(images, image_id, w, h);
                },
                None => {},
            },
            None => {},
        }
    }
    let stored = thumbnail.clone();
    thumbnails.insert(image_id, stored);
    Ok(ThumbnailData {
        image_id,
        data: thumbnail,
        format: ImageFormat::Jpeg,
        width: config.thumbnail_size,
        height: config.thumbnail_size,
    })
}

/// The stored thumbnail of an image (a placeholder too), if any.
pub fn get_thumbnail(thumbnails: &ThumbnailStorage, image_id: ImageId) -> (r: CoreResult<Option<ThumbnailData>>)
    ensures
        match r {
            Ok(Some(t)) => thumbnails@.contains_key(image_id) && t@ == stored_thumbnail(
                image_id,
                thumbnails@[image_id],
            ),
            Ok(None) => !thumbnails@.contains_key(image_id),
            Err(_) => false,
        },
{
    match thumbnails.get(image_id) {
        Some(t) => Ok(Some(make_stored_thumbnail(image_id, t.clone()))),
        None => Ok(None),
    }
}

/// Whether an image has a stored thumbnail or placeholder.
pub fn has_thumbnail(thumbnails: &ThumbnailStorage, image_id: ImageId) -> (r: CoreResult<bool>)
    ensures
        r == Ok::<bool, CoreError>(thumbnails@.contains_key(image_id)),
{
    Ok(thumbnails.contains(image_id))
}

/// Forgets every thumbnail.
pub fn clear_all_thumbnails(thumbnails: &mut ThumbnailStorage) -> (r: CoreResult<()>)
    ensures
        r is Ok,
        final(thumbnails)@ == Map::<ImageId, Seq<u8>>::empty(),
{
    thumbnails.clear();
    Ok(())
}

/// After a batch request, every stored image among the requested ones has
/// an entry, and earlier entries stay.
pub proof fn lemma_batch_covers(ids: Seq<ImageId>, images: Set<ImageId>, thumbs: Map<ImageId, Seq<u8>>, k: ImageId)
    requires
        thumbs.contains_key(k) || (ids.contains(k) && images.contains(k)),
    ensures
        batch_plan(ids, images, thumbs).2.contains_key(k),
    decreases ids.len(),
{
    if ids.len() > 0 {
        let prev = ids.drop_last();
        if thumbs.contains_key(k) || (prev.contains(k) && images.contains(k)) {
            lemma_batch_covers(prev, images, thumbs, k);
        } else {
            assert(ids.last() == k) by {
                let j = choose|j: int| 0 <= j < ids.len() && ids[j] == k;
                if j < ids.len() - 1 {
                    assert(prev[j] == k);
                }
            }
        }
    }
}

/// A batch request over images that all have entries renders nothing and
/// changes no entry.
pub proof fn lemma_batch_of_covered(ids: Seq<ImageId>, images: Set<ImageId>, thumbs: Map<ImageId, Seq<u8>>)
    requires
        forall|j: int| 0 <= j < ids.len() && images.contains(#[trigger] ids[j]) ==> thumbs.contains_key(ids[j]),
    ensures
        batch_plan(ids, images, thumbs).1.len() == 0,
        batch_plan(ids, images, thumbs).2 == thumbs,
    decreases ids.len(),
{
    if ids.len() > 0 {
        let prev = ids.drop_last();
        assert forall|j: int| 0 <= j < prev.len() && images.contains(#[trigger] prev[j]) implies thumbs.contains_key(
            prev[j],
        ) by {
            assert(prev[j] == ids[j]);
        }
        lemma_batch_of_covered(prev, images, thumbs);
        assert(ids.last() == ids[ids.len() - 1]);
    }
}

/// Asking again renders nothing new: after a batch request, the same request
/// puts no image up for rendering and changes no entry.
pub proof fn law_repeated_batch_renders_nothing_new(ids: Seq<ImageId>, images: Set<ImageId>, thumbs: Map<ImageId, Seq<u8>>)
    ensures
        batch_plan(ids, images, batch_plan(ids, images, thumbs).2).1.len() == 0,
        batch_plan(ids, images, batch_plan(ids, images, thumbs).2).2 == batch_plan(ids, images, thumbs).2,
{
    let t1 = batch_plan(ids, images, thumbs).2;
    assert forall|j: int| 0 <= j < ids.len() && images.contains(#[trigger] ids[j]) implies t1.contains_key(ids[j]) by {
        assert(ids.contains(ids[j]));
        lemma_batch_covers(ids, images, thumbs, ids[j]);
    }
    lemma_batch_of_covered(ids, images, t1);
}

/// The standard base64 text (alphabet `A-Z a-z 0-9 + /`, `=` padding) of
/// some bytes.
pub uninterp spec fn base64_standard(b: Seq<u8>) -> Seq<char>;

/// base64's `engine::general_purpose::STANDARD.encode`. Claimed: the
/// result is `base64_standard` of the bytes.
#[verifier::external_body]
fn base64_encode(data: &[u8]) -> (r: String)
    ensures
        r@ == base64_standard(data@),
{
    base64::engine::general_purpose::STANDARD.encode(data)
}

/// A thumbnail as announced to the front end: its bytes as standard
/// base64 text.
#[derive(Debug)]
pub struct ThumbnailPayload {
    pub image_id: ImageId,
    pub data: String,
    pub format: ImageFormat,
    pub width: u32,
    pub height: u32,
}

/// The announcement of a rendered thumbnail.
pub fn thumbnail_payload(t: &ThumbnailData) -> (p: ThumbnailPayload)
    ensures
        p.image_id == t.image_id,
        p.data@ == base64_standard(t.data@),
        p.format == t.format,
        p.width == t.width,
        p.height == t.height,
{
    ThumbnailPayload {
        image_id: t.image_id,
        data: base64_encode(t.data.as_slice()),
        format: t.format,
        width: t.width,
        height: t.height,
    }
}

} // verus!
