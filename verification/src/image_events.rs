use vstd::prelude::*;
use crate::error::{CoreError, CoreResult};
use crate::ids::{ImageId, MarkerId, ProjectId};
use crate::dto::MarkerDTO;
use crate::events::{DomainEvent, EventView, event_views};
use crate::image::{ImageView, estimated_size_of};
use crate::image_data::{ImageData, ImageDataView};
use crate::image_service::ImageService;
use crate::marker_service::MarkerService;
use crate::project_service::ProjectService;
use crate::state::{ImageStorage, MarkerStorage, MarkerStorageView, ProjectStorage, page_list, present_markers};
use crate::text::string_of;

verus! {

/// Where the bytes of an image can be had: in memory, or in a file that the
/// caller reads.
#[derive(Debug)]
pub enum ImageBytes {
    Loaded(Vec<u8>),
    File(String),
}

/// The abstract value of `ImageBytes`.
pub enum ImageBytesView {
    Loaded(Seq<u8>),
    File(Seq<char>),
}

impl View for ImageBytes {
    type V = ImageBytesView;

    open spec fn view(&self) -> ImageBytesView {
        match self {
            ImageBytes::Loaded(d) => ImageBytesView::Loaded(d@),
            ImageBytes::File(p) => ImageBytesView::File(p@),
        }
    }
}

/// Where the bytes of image data are to be had: a shared buffer's bytes are
/// not available here.
pub open spec fn display_source(d: ImageDataView) -> Result<ImageBytesView, Seq<char>> {
    match d {
        ImageDataView::Binary { data, .. } => Ok(ImageBytesView::Loaded(data)),
        ImageDataView::FilePath(p) => Ok(ImageBytesView::File(p)),
        ImageDataView::SharedBuffer { .. } => Err("Cannot get binary data from shared buffer"@),
    }
}

/// The abstract value of a result carrying image bytes or a message.
pub open spec fn bytes_result_view(r: Result<ImageBytes, String>) -> Result<ImageBytesView, Seq<char>> {
    match r {
        Ok(b) => Ok(b@),
        Err(e) => Err(e@),
    }
}

/// The marker store after the pages `ids` lose their markers, one page
/// after another.
pub open spec fn pages_cleared(m: MarkerStorageView, ids: Seq<ImageId>) -> MarkerStorageView
    decreases ids.len(),
{
    if ids.len() == 0 {
        m
    } else {
        let prev = pages_cleared(m, ids.drop_last());
        MarkerStorageView {
            markers: prev.markers.remove_keys(page_list(prev.by_image, ids.last()).to_set()),
            by_image: prev.by_image.remove(ids.last()),
        }
    }
}

/// The notices of deleting the images `ids` one after another from
/// `images`: for each, the deletion notice of the store when it still held
/// the image, then the notice of the cascade itself.
pub open spec fn deletion_notices(images: Map<ImageId, ImageView>, ids: Seq<ImageId>) -> Seq<EventView>
    decreases ids.len(),
{
    if ids.len() == 0 {
        Seq::empty()
    } else {
        let prev = deletion_notices(images, ids.drop_last());
        let id = ids.last();
        let held = images.remove_keys(ids.drop_last().to_set()).contains_key(id);
        (if held {
            prev.push(EventView::ImageDeleted(id))
        } else {
            prev
        }).push(EventView::ImageDeleted(id))
    }
}

impl ImageService {
    /// Where the bytes of image data are to be had.
    pub fn get_image_data_for_display(&self, image_data: &ImageData) -> (r: Result<ImageBytes, String>)
        ensures
            bytes_result_view(r) == display_source(image_data@),
    {
        match image_data {
            ImageData::Binary { data, .. } => Ok(ImageBytes::Loaded(data.clone())),
            ImageData::FilePath(path) => Ok(ImageBytes::File(path.clone())),
            ImageData::SharedBuffer { .. } => {
                let msg = "Cannot get binary data from shared buffer";
                proof {
                    reveal_strlit("Cannot get binary data from shared buffer");
                }
                Err(string_of(msg))
            },
        }
    }

    /// Where the bytes of a stored image are to be had.
    pub fn get_image_binary_data(&self, images: &ImageStorage, image_id: u32) -> (r: Result<ImageBytes, String>)
        ensures
            bytes_result_view(r) == (if images@.images.contains_key(image_id) {
                display_source(images@.images[image_id].data)
            } else {
                Err("Image not found"@)
            }),
    {
        match images.get(image_id) {
            Some(image) => self.get_image_data_for_display(&image.data),
            None => {
                let msg = "Image not found";
                proof {
                    reveal_strlit("Image not found");
                }
                Err(string_of(msg))
            },
        }
    }

    /// The front-end forms of a page's stored markers, in the page's order.
    pub fn get_image_markers(&self, markers: &MarkerStorage, image_id: u32) -> (r: Vec<MarkerDTO>)
        ensures
            r@.map_values(|d: MarkerDTO| d@) == present_markers(page_list(markers@.by_image, image_id), markers@.markers),
    {
        let service = MarkerService;
        match service.get_image_markers(markers, image_id) {
            Ok(ms) => ms,
            Err(_) => Vec::new(),
        }
    }

    /// Reacts to a notice. A project about to be deleted takes its images
    /// with it: the batch is announced, then each image loses its markers
    /// (not recorded for undo) and is deleted, with a notice each. Clearing
    /// all data empties the image store. Other notices are ignored.
    pub fn handle(
        &self,
        projects: &ProjectStorage,
        images: &mut ImageStorage,
        markers: &mut MarkerStorage,
        events: &mut Vec<DomainEvent>,
        event: &DomainEvent,
    )
        requires
            forall|k: ImageId| #[trigger]
                old(images)@.images.contains_key(k) ==> estimated_size_of(old(images)@.images[k]) <= usize::MAX,
        ensures
            final(images)@.max_memory == old(images)@.max_memory,
            match event@ {
                EventView::ProjectDeleting(pid) => if projects@.contains_key(pid) && projects@[pid].image_ids.len()
                    > 0 {
                    let ids = projects@[pid].image_ids;
                    &&& final(images)@.images == old(images)@.images.remove_keys(ids.to_set())
                    &&& final(markers)@ == pages_cleared(old(markers)@, ids)
                    &&& event_views(final(events)@) == event_views(old(events)@).push(
                        EventView::ProjectImagesDeleting(pid, ids),
                    ) + deletion_notices(old(images)@.images, ids)
                } else {
                    &&& final(images)@ == old(images)@
                    &&& final(markers)@ == old(markers)@
                    &&& final(events)@ == old(events)@
                },
                EventView::AllDataClearing => {
                    &&& final(images)@.images == Map::<ImageId, ImageView>::empty()
                    &&& final(images)@.current_memory == 0
                    &&& final(markers)@ == old(markers)@
                    &&& final(events)@ == old(events)@
                },
                _ => {
                    &&& final(images)@ == old(images)@
                    &&& final(markers)@ == old(markers)@
                    &&& final(events)@ == old(events)@
                },
            },
    {
        match event {
            DomainEvent::ProjectDeleting(project_id) => {
                let pid: ProjectId = *project_id;
                let projects_service = ProjectService;
                if let Ok(Some(project)) = projects_service.get_project_by_id(projects, pid) {
                    let image_ids = project.image_ids;
                    if image_ids.len() > 0 {
                        self.delete_project_images(images, markers, events, pid, image_ids);
                    }
                }
            },
            DomainEvent::AllDataClearing => {
                self.clear_all(images);
            },
            _ => {},
        }
    }

    /// Announces and deletes a project's images with their markers.
    fn delete_project_images(
        &self,
        images: &mut ImageStorage,
        markers: &mut MarkerStorage,
        events: &mut Vec<DomainEvent>,
        pid: ProjectId,
        ids: Vec<ImageId>,
    )
        requires
            forall|k: ImageId| #[trigger]
                old(images)@.images.contains_key(k) ==> estimated_size_of(old(images)@.images[k]) <= usize::MAX,
        ensures
            final(images)@.max_memory == old(images)@.max_memory,
            final(images)@.images == old(images)@.images.remove_keys(ids@.to_set()),
            final(markers)@ == pages_cleared(old(markers)@, ids@),
            event_views(final(events)@) == event_views(old(events)@).push(EventView::ProjectImagesDeleting(pid, ids@))
                + deletion_notices(old(images)@.images, ids@),
    {
        let ghost before = event_views(events@);
        events.push(DomainEvent::ProjectImagesDeleting(pid, ids.clone()));
        let ghost e0 = event_views(events@);
        assert(e0 =~= before.push(EventView::ProjectImagesDeleting(pid, ids@)));
        let service = MarkerService;
        let mut i: usize = 0;
        while i < ids.len()
            invariant
                i <= ids@.len(),
                images@.max_memory == old(images)@.max_memory,
                images@.images == old(images)@.images.remove_keys(ids@.take(i as int).to_set()),
                forall|k: ImageId| #[trigger]
                    images@.images.contains_key(k) ==> estimated_size_of(images@.images[k]) <= usize::MAX,
                markers@ == pages_cleared(old(markers)@, ids@.take(i as int)),
                event_views(events@) == e0 + deletion_notices(old(images)@.images, ids@.take(i as int)),
            decreases ids@.len() - i,
        {
            let id = ids[i];
            let ghost held = images@.images.contains_key(id);
            let ghost ev_before = event_views(events@);
            proof {
                assert(ids@.take(i as int + 1).drop_last() =~= ids@.take(i as int));
                assert(ids@.take(i as int + 1).last() == id);
            }
            let _ = service.take_image_markers(markers, images, id);
            let _ = self.remove_image(images, events, id);
            let ghost ev_mid = event_views(events@);
            events.push(DomainEvent::ImageDeleted(id));
            proof {
                assert(event_views(events@) =~= ev_mid.push(EventView::ImageDeleted(id)));
                assert(ids@.take(i as int + 1).to_set() =~= ids@.take(i as int).to_set().insert(id));
                assert(images@.images =~= old(images)@.images.remove_keys(ids@.take(i as int + 1).to_set()));
                assert(markers@ == pages_cleared(old(markers)@, ids@.take(i as int + 1)));
                let prev = deletion_notices(old(images)@.images, ids@.take(i as int));
                assert(old(images)@.images.remove_keys(ids@.take(i as int).to_set()).contains_key(id) == held);
                assert(deletion_notices(old(images)@.images, ids@.take(i as int + 1)) == (if held {
                    prev.push(EventView::ImageDeleted(id))
                } else {
                    prev
                }).push(EventView::ImageDeleted(id)));
                assert(event_views(events@) =~= e0 + deletion_notices(old(images)@.images, ids@.take(i as int + 1)));
            }
            i = i + 1;
        }
        assert(ids@.take(ids@.len() as int) =~= ids@);
    }
}

} // verus!
