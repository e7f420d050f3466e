use vstd::prelude::*;
use std::collections::HashMap;
use crate::ids::{ImageId, MarkerId, ProjectId};
use crate::project::{Project, ProjectView};
use crate::image::{Image, ImageView, estimated_size_of};
use crate::error::{CoreError, CoreResult};
use crate::marker::{Marker, MarkerView};
use crate::bunny_cache::{BunnyCacheStorage, BunnyCacheView};
use crate::ids::IdGenerator;
use crate::collections::{enumerates, map_keys, vec_without, without};

verus! {

broadcast use vstd::std_specs::hash::group_hash_axioms;

/// All projects, keyed by identifier.
#[derive(Debug)]
pub struct ProjectStorage {
    pub(crate) projects: HashMap<ProjectId, Project>,
}

impl View for ProjectStorage {
    type V = Map<ProjectId, ProjectView>;

    closed spec fn view(&self) -> Map<ProjectId, ProjectView> {
        self.projects@.map_values(|p: Project| p@)
    }
}

impl ProjectStorage {
    /// An empty store.
    pub fn new() -> (s: Self)
        ensures
            s@ == Map::<ProjectId, ProjectView>::empty(),
    {
        let s = ProjectStorage { projects: HashMap::new() };
        assert(s@ =~= Map::<ProjectId, ProjectView>::empty());
        s
    }

    /// Stores `value` under `key`, replacing what was there.
    pub fn insert(&mut self, key: ProjectId, value: Project)
        ensures
            final(self)@ == old(self)@.insert(key, value@),
    {
        self.projects.insert(key, value);
        assert(self@ =~= old(self)@.insert(key, value@));
    }

    /// The stored project, if any.
    pub fn get(&self, key: ProjectId) -> (r: Option<&Project>)
        ensures
            match r {
                Some(p) => self@.contains_key(key) && p@ == self@[key],
                None => !self@.contains_key(key),
            },
    {
        self.projects.get(&key)
    }

    /// Takes the stored project out, if any.
    pub fn remove(&mut self, key: ProjectId) -> (r: Option<Project>)
        ensures
            final(self)@ == old(self)@.remove(key),
            match r {
                Some(p) => old(self)@.contains_key(key) && p@ == old(self)@[key],
                None => !old(self)@.contains_key(key),
            },
    {
        let r = self.projects.remove(&key);
        assert(self@ =~= old(self)@.remove(key));
        r
    }

    /// Whether a project is stored under `key`.
    pub fn contains(&self, key: ProjectId) -> (r: bool)
        ensures
            r == self@.contains_key(key),
    {
        self.projects.contains_key(&key)
    }

    /// The identifiers of the stored projects, each once.
    pub fn keys(&self) -> (r: Vec<ProjectId>)
        ensures
            enumerates(r@, self@.dom()),
    {
        map_keys(&self.projects)
    }

    /// A store holds finitely many projects.
    pub proof fn lemma_finite(&self)
        ensures
            self@.dom().finite(),
    {
        assert(self@.dom() =~= self.projects@.dom());
    }

    /// The number of stored projects.
    pub fn len(&self) -> (r: usize)
        ensures
            r == self@.dom().len(),
    {
        assert(self@.dom() =~= self.projects@.dom());
        self.projects.len()
    }

    /// Removes every project.
    pub fn clear(&mut self)
        ensures
            final(self)@ == Map::<ProjectId, ProjectView>::empty(),
    {
        self.projects.clear();
        assert(self@ =~= Map::<ProjectId, ProjectView>::empty());
    }
}

/// All images, keyed by identifier, with a running estimate of the memory
/// they use and the limit that new images are checked against.
#[derive(Debug)]
pub struct ImageStorage {
    pub(crate) images: HashMap<ImageId, Image>,
    pub(crate) current_memory: usize,
    pub(crate) max_memory: usize,
}

/// The abstract value of the image store.
pub struct ImageStorageView {
    pub images: Map<ImageId, ImageView>,
    pub current_memory: usize,
    pub max_memory: usize,
}

impl View for ImageStorage {
    type V = ImageStorageView;

    closed spec fn view(&self) -> ImageStorageView {
        ImageStorageView {
            images: self.images@.map_values(|i: Image| i@),
            current_memory: self.current_memory,
            max_memory: self.max_memory,
        }
    }
}

impl ImageStorage {
    /// An empty store with the given memory limit.
    pub fn new(max_memory: usize) -> (s: Self)
        ensures
            s@.images == Map::<ImageId, ImageView>::empty(),
            s@.current_memory == 0,
            s@.max_memory == max_memory,
    {
        let s = ImageStorage { images: HashMap::new(), current_memory: 0, max_memory };
        assert(s@.images =~= Map::<ImageId, ImageView>::empty());
        s
    }

    /// Stores an image unless its estimated size would take the running
    /// total past the limit; then reports how much was asked for and how
    /// much was left.
    pub fn insert_with_memory_check(&mut self, id: ImageId, image: Image) -> (r: CoreResult<()>)
        requires
            old(self)@.current_memory <= old(self)@.max_memory,
            old(self)@.current_memory + estimated_size_of(image@) <= usize::MAX,
        ensures
            old(self)@.current_memory + estimated_size_of(image@) > old(self)@.max_memory ==> {
                &&& r == Err::<(), CoreError>(
                    CoreError::MemoryLimitExceeded {
                        requested: estimated_size_of(image@) as usize,
                        available: (old(self)@.max_memory - old(self)@.current_memory) as usize,
                    },
                )
                &&& final(self)@ == old(self)@
            },
            old(self)@.current_memory + estimated_size_of(image@) <= old(self)@.max_memory ==> {
                &&& r == Ok::<(), CoreError>(())
                &&& final(self)@.images == old(self)@.images.insert(id, image@)
                &&& final(self)@.current_memory == old(self)@.current_memory + estimated_size_of(image@)
                &&& final(self)@.max_memory == old(self)@.max_memory
            },
    {
        let image_size = image.estimated_size();
        if self.current_memory + image_size > self.max_memory {
            return Err(
                CoreError::MemoryLimitExceeded {
                    requested: image_size,
                    available: self.max_memory - self.current_memory,
                },
            );
        }
        self.images.insert(id, image);
        self.current_memory = self.current_memory + image_size;
        assert(self@.images =~= old(self)@.images.insert(id, image@));
        Ok(())
    }

    /// A copy of the stored image, if any.
    pub fn get_arc(&self, id: ImageId) -> (r: Option<Image>)
        ensures
            match r {
                Some(i) => self@.images.contains_key(id) && i@ == self@.images[id],
                None => !self@.images.contains_key(id),
            },
    {
        match self.images.get(&id) {
            Some(i) => Some(i.clone()),
            None => None,
        }
    }

    /// The running memory estimate.
    pub fn current_memory_usage(&self) -> (r: usize)
        ensures
            r == self@.current_memory,
    {
        self.current_memory
    }

    /// Stores an image without checking the limit, adding its size to the
    /// running estimate.
    pub fn insert(&mut self, key: ImageId, value: Image) -> (r: CoreResult<()>)
        requires
            old(self)@.current_memory + estimated_size_of(value@) <= usize::MAX,
        ensures
            r == Ok::<(), CoreError>(()),
            final(self)@.images == old(self)@.images.insert(key, value@),
            final(self)@.current_memory == old(self)@.current_memory + estimated_size_of(value@),
            final(self)@.max_memory == old(self)@.max_memory,
    {
        let image_size = value.estimated_size();
        self.images.insert(key, value);
        self.current_memory = self.current_memory + image_size;
        assert(self@.images =~= old(self)@.images.insert(key, value@));
        Ok(())
    }

    /// The stored image, if any.
    pub fn get(&self, key: ImageId) -> (r: Option<&Image>)
        ensures
            match r {
                Some(i) => self@.images.contains_key(key) && i@ == self@.images[key],
                None => !self@.images.contains_key(key),
            },
    {
        self.images.get(&key)
    }

    /// Takes an image out, lowering the running estimate by its size (not
    /// below zero).
    pub fn remove(&mut self, key: ImageId) -> (r: Option<Image>)
        requires
            old(self)@.images.contains_key(key) ==> estimated_size_of(old(self)@.images[key]) <= usize::MAX,
        ensures
            final(self)@.images == old(self)@.images.remove(key),
            final(self)@.max_memory == old(self)@.max_memory,
            match r {
                Some(i) => {
                    &&& old(self)@.images.contains_key(key)
                    &&& i@ == old(self)@.images[key]
                    &&& final(self)@.current_memory == (if old(self)@.current_memory >= estimated_size_of(i@) {
                        old(self)@.current_memory - estimated_size_of(i@)
                    } else {
                        0
                    })
                },
                None => !old(self)@.images.contains_key(key) && final(self)@.current_memory == old(self)@.current_memory,
            },
    {
        let r = self.images.remove(&key);
        match r {
            Some(image) => {
                self.current_memory = self.current_memory.saturating_sub(image.estimated_size());
                assert(self@.images =~= old(self)@.images.remove(key));
                Some(image)
            },
            None => {
                assert(self@.images =~= old(self)@.images.remove(key));
                None
            },
        }
    }

    /// Takes an image out without touching the memory estimate.
    pub(crate) fn take(&mut self, key: ImageId) -> (r: Option<Image>)
        ensures
            final(self)@.images == old(self)@.images.remove(key),
            final(self)@.current_memory == old(self)@.current_memory,
            final(self)@.max_memory == old(self)@.max_memory,
            match r {
                Some(i) => old(self)@.images.contains_key(key) && i@ == old(self)@.images[key],
                None => !old(self)@.images.contains_key(key),
            },
    {
        let r = self.images.remove(&key);
        assert(self@.images =~= old(self)@.images.remove(key));
        r
    }

    /// Puts an image back without touching the memory estimate.
    pub(crate) fn put(&mut self, key: ImageId, value: Image)
        ensures
            final(self)@.images == old(self)@.images.insert(key, value@),
            final(self)@.current_memory == old(self)@.current_memory,
            final(self)@.max_memory == old(self)@.max_memory,
    {
        self.images.insert(key, value);
        assert(self@.images =~= old(self)@.images.insert(key, value@));
    }

    /// Whether an image is stored under `key`.
    pub fn contains(&self, key: ImageId) -> (r: bool)
        ensures
            r == self@.images.contains_key(key),
    {
        self.images.contains_key(&key)
    }

    /// Removes every image and resets the estimate.
    pub fn clear(&mut self)
        ensures
            final(self)@.images == Map::<ImageId, ImageView>::empty(),
            final(self)@.current_memory == 0,
            final(self)@.max_memory == old(self)@.max_memory,
    {
        self.images.clear();
        self.current_memory = 0;
        assert(self@.images =~= Map::<ImageId, ImageView>::empty());
    }

    /// The identifiers of the stored images, each once.
    pub fn keys(&self) -> (r: Vec<ImageId>)
        ensures
            enumerates(r@, self@.images.dom()),
    {
        map_keys(&self.images)
    }

    /// The number of stored images.
    pub fn len(&self) -> (r: usize)
        ensures
            r == self@.images.dom().len(),
    {
        assert(self@.images.dom() =~= self.images@.dom());
        self.images.len()
    }
}

/// All markers, keyed by identifier, and for each page the identifiers of
/// its markers in the order they were added.
#[derive(Debug)]
pub struct MarkerStorage {
    pub(crate) markers: HashMap<MarkerId, Marker>,
    pub(crate) by_image: HashMap<ImageId, Vec<MarkerId>>,
}

/// The abstract value of the marker store.
pub struct MarkerStorageView {
    pub markers: Map<MarkerId, MarkerView>,
    pub by_image: Map<ImageId, Seq<MarkerId>>,
}

impl View for MarkerStorage {
    type V = MarkerStorageView;

    closed spec fn view(&self) -> MarkerStorageView {
        MarkerStorageView {
            markers: self.markers@.map_values(|m: Marker| m@),
            by_image: self.by_image@.map_values(|v: Vec<MarkerId>| v@),
        }
    }
}

impl MarkerStorage {
    /// An empty store.
    pub fn new() -> (s: Self)
        ensures
            s@.markers == Map::<MarkerId, MarkerView>::empty(),
            s@.by_image == Map::<ImageId, Seq<MarkerId>>::empty(),
    {
        let s = MarkerStorage { markers: HashMap::new(), by_image: HashMap::new() };
        assert(s@.markers =~= Map::<MarkerId, MarkerView>::empty());
        assert(s@.by_image =~= Map::<ImageId, Seq<MarkerId>>::empty());
        s
    }

    /// The identifiers of the stored markers, each once.
    pub fn ids(&self) -> (r: Vec<MarkerId>)
        ensures
            enumerates(r@, self@.markers.dom()),
    {
        let r = map_keys(&self.markers);
        assert(self@.markers.dom() =~= self.markers@.dom());
        r
    }

    /// The stored marker, if any.
    pub fn get(&self, key: MarkerId) -> (r: Option<&Marker>)
        ensures
            match r {
                Some(m) => self@.markers.contains_key(key) && m@ == self@.markers[key],
                None => !self@.markers.contains_key(key),
            },
    {
        self.markers.get(&key)
    }

    /// Takes a marker out of the marker table (the per-page index stays).
    pub fn take(&mut self, key: MarkerId) -> (r: Option<Marker>)
        ensures
            final(self)@.markers == old(self)@.markers.remove(key),
            final(self)@.by_image == old(self)@.by_image,
            match r {
                Some(m) => old(self)@.markers.contains_key(key) && m@ == old(self)@.markers[key],
                None => !old(self)@.markers.contains_key(key),
            },
    {
        let r = self.markers.remove(&key);
        assert(self@.markers =~= old(self)@.markers.remove(key));
        r
    }

    /// Puts a marker into the marker table (the per-page index stays).
    pub fn put(&mut self, key: MarkerId, value: Marker)
        ensures
            final(self)@.markers == old(self)@.markers.insert(key, value@),
            final(self)@.by_image == old(self)@.by_image,
    {
        self.markers.insert(key, value);
        assert(self@.markers =~= old(self)@.markers.insert(key, value@));
    }

    /// The per-page list of a page, if it has one.
    pub fn image_list(&self, image_id: ImageId) -> (r: Option<&Vec<MarkerId>>)
        ensures
            match r {
                Some(v) => self@.by_image.contains_key(image_id) && v@ == self@.by_image[image_id],
                None => !self@.by_image.contains_key(image_id),
            },
    {
        self.by_image.get(&image_id)
    }

    /// Takes a page's list out of the per-page index.
    pub fn take_image_list(&mut self, image_id: ImageId) -> (r: Option<Vec<MarkerId>>)
        ensures
            final(self)@.markers == old(self)@.markers,
            final(self)@.by_image == old(self)@.by_image.remove(image_id),
            match r {
                Some(v) => old(self)@.by_image.contains_key(image_id) && v@ == old(self)@.by_image[image_id],
                None => !old(self)@.by_image.contains_key(image_id),
            },
    {
        let r = self.by_image.remove(&image_id);
        assert(self@.by_image =~= old(self)@.by_image.remove(image_id));
        r
    }

    /// Puts a page's list into the per-page index.
    pub fn put_image_list(&mut self, image_id: ImageId, ids: Vec<MarkerId>)
        ensures
            final(self)@.markers == old(self)@.markers,
            final(self)@.by_image == old(self)@.by_image.insert(image_id, ids@),
    {
        self.by_image.insert(image_id, ids);
        assert(self@.by_image =~= old(self)@.by_image.insert(image_id, ids@));
    }

    /// Stores a marker and appends its identifier to its page's list.
    pub fn insert_with_image(&mut self, marker: Marker) -> (r: CoreResult<MarkerId>)
        ensures
            r == Ok::<MarkerId, CoreError>(marker.id),
            final(self)@.markers == old(self)@.markers.insert(marker.id, marker@),
            final(self)@.by_image == old(self)@.by_image.insert(
                marker.image_id,
                page_list(old(self)@.by_image, marker.image_id).push(marker.id),
            ),
    {
        let id = marker.id;
        let image_id = marker.image_id;
        self.put(id, marker);
        let mut ids = match self.take_image_list(image_id) {
            Some(v) => v,
            None => Vec::new(),
        };
        ids.push(id);
        self.put_image_list(image_id, ids);
        proof {
            lemma_remove_insert_seq(old(self)@.by_image, image_id, self@.by_image[image_id]);
        }
        Ok(id)
    }

    /// The markers of a page that are still stored, in the page's order.
    pub fn get_by_image(&self, image_id: ImageId) -> (r: Vec<&Marker>)
        ensures
            r@.map_values(|m: &Marker| m@) == present_markers(page_list(self@.by_image, image_id), self@.markers),
    {
        let mut out: Vec<&Marker> = Vec::new();
        match self.image_list(image_id) {
            Some(ids) => {
                let mut i: usize = 0;
                while i < ids.len()
                    invariant
                        i <= ids@.len(),
                        ids@ == page_list(self@.by_image, image_id),
                        out@.map_values(|m: &Marker| m@) == present_markers(ids@.take(i as int), self@.markers),
                    decreases ids@.len() - i,
                {
                    assert(ids@.take(i as int + 1).drop_last() =~= ids@.take(i as int));
                    match self.get(ids[i]) {
                        Some(m) => {
                            out.push(m);
                        },
                        None => {},
                    }
                    assert(out@.map_values(|m: &Marker| m@) =~= present_markers(
                        ids@.take(i as int + 1),
                        self@.markers,
                    ));
                    i = i + 1;
                }
                assert(ids@.take(ids@.len() as int) =~= ids@);
            },
            None => {
                assert(out@.map_values(|m: &Marker| m@) =~= Seq::<MarkerView>::empty());
            },
        }
        out
    }

    /// Deletes a marker and drops it from its page's list (the list goes
    /// when it becomes empty).
    pub fn remove_with_cleanup(&mut self, id: MarkerId) -> (r: Option<Marker>)
        ensures
            match r {
                Some(m) => {
                    &&& old(self)@.markers.contains_key(id)
                    &&& m@ == old(self)@.markers[id]
                    &&& final(self)@.markers == old(self)@.markers.remove(id)
                    &&& final(self)@.by_image == list_without(old(self)@.by_image, m.image_id, id)
                },
                None => !old(self)@.markers.contains_key(id) && final(self)@ == old(self)@,
            },
    {
        match self.take(id) {
            Some(marker) => {
                let image_id = marker.image_id;
                match self.take_image_list(image_id) {
                    Some(ids) => {
                        let rest = vec_without(&ids, id);
                        if rest.len() > 0 {
                            self.put_image_list(image_id, rest);
                            proof {
                                lemma_remove_insert_seq(old(self)@.by_image, image_id, self@.by_image[image_id]);
                            }
                        }
                    },
                    None => {
                        assert(self@.by_image =~= old(self)@.by_image);
                    },
                }
                Some(marker)
            },
            None => {
                assert(self@.markers =~= old(self)@.markers);
                None
            },
        }
    }

    /// Whether a marker is stored under `key`.
    pub fn contains(&self, key: MarkerId) -> (r: bool)
        ensures
            r == self@.markers.contains_key(key),
    {
        self.markers.contains_key(&key)
    }

    /// Removes every marker and the per-page index.
    pub fn clear(&mut self)
        ensures
            final(self)@.markers == Map::<MarkerId, MarkerView>::empty(),
            final(self)@.by_image == Map::<ImageId, Seq<MarkerId>>::empty(),
    {
        self.markers.clear();
        self.by_image.clear();
        assert(self@.markers =~= Map::<MarkerId, MarkerView>::empty());
        assert(self@.by_image =~= Map::<ImageId, Seq<MarkerId>>::empty());
    }

    /// The number of markers.
    pub fn len(&self) -> (r: usize)
        ensures
            r == self@.markers.dom().len(),
    {
        assert(self@.markers.dom() =~= self.markers@.dom());
        self.markers.len()
    }
}

/// Rendered thumbnails, keyed by image.
#[derive(Debug)]
pub struct ThumbnailStorage {
    thumbnails: HashMap<ImageId, Vec<u8>>,
}

impl View for ThumbnailStorage {
    type V = Map<ImageId, Seq<u8>>;

    closed spec fn view(&self) -> Map<ImageId, Seq<u8>> {
        self.thumbnails@.map_values(|v: Vec<u8>| v@)
    }
}

impl ThumbnailStorage {
    /// An empty store.
    pub fn new() -> (s: Self)
        ensures
            s@ == Map::<ImageId, Seq<u8>>::empty(),
    {
        let s = ThumbnailStorage { thumbnails: HashMap::new() };
        assert(s@ =~= Map::<ImageId, Seq<u8>>::empty());
        s
    }

    /// Stores a thumbnail, replacing what was there.
    pub fn insert(&mut self, key: ImageId, value: Vec<u8>)
        ensures
            final(self)@ == old(self)@.insert(key, value@),
    {
        self.thumbnails.insert(key, value);
        assert(self@ =~= old(self)@.insert(key, value@));
    }

    /// The thumbnail of an image, if any.
    pub fn get(&self, key: ImageId) -> (r: Option<&Vec<u8>>)
        ensures
            match r {
                Some(v) => self@.contains_key(key) && v@ == self@[key],
                None => !self@.contains_key(key),
            },
    {
        self.thumbnails.get(&key)
    }

    /// Takes a thumbnail out.
    pub fn remove(&mut self, key: ImageId) -> (r: Option<Vec<u8>>)
        ensures
            final(self)@ == old(self)@.remove(key),
            match r {
                Some(v) => old(self)@.contains_key(key) && v@ == old(self)@[key],
                None => !old(self)@.contains_key(key),
            },
    {
        let r = self.thumbnails.remove(&key);
        assert(self@ =~= old(self)@.remove(key));
        r
    }

    /// Whether an image has a thumbnail.
    pub fn contains(&self, key: ImageId) -> (r: bool)
        ensures
            r == self@.contains_key(key),
    {
        self.thumbnails.contains_key(&key)
    }

    /// Removes every thumbnail.
    pub fn clear(&mut self)
        ensures
            final(self)@ == Map::<ImageId, Seq<u8>>::empty(),
    {
        self.thumbnails.clear();
        assert(self@ =~= Map::<ImageId, Seq<u8>>::empty());
    }
}

/// The whole state of the application: every store, and the identifier
/// sources for new projects, images and markers.
pub struct AppState {
    pub projects: ProjectStorage,
    pub images: ImageStorage,
    pub markers: MarkerStorage,
    pub thumbnails: ThumbnailStorage,
    pub bunny_cache: BunnyCacheStorage,
    pub project_ids: IdGenerator,
    pub image_ids: IdGenerator,
    pub marker_ids: IdGenerator,
}

/// The default image memory limit: 4 GiB, or all of the address space on a
/// target whose `usize` cannot count that far.
pub open spec fn default_max_memory() -> usize {
    if usize::MAX >= 4294967296 {
        4294967296int as usize
    } else {
        usize::MAX
    }
}

fn default_max_memory_exec() -> (r: usize)
    ensures
        r == default_max_memory(),
{
    if usize::MAX as u64 >= 4294967296u64 {
        4294967296u64 as usize
    } else {
        usize::MAX
    }
}

/// Whether every store of a state is empty and the image limit is `max`.
pub open spec fn is_empty_state(s: AppState, max: usize) -> bool {
    &&& s.projects@ == Map::<ProjectId, ProjectView>::empty()
    &&& s.images@.images == Map::<ImageId, ImageView>::empty()
    &&& s.images@.current_memory == 0
    &&& s.images@.max_memory == max
    &&& s.markers@.markers == Map::<MarkerId, MarkerView>::empty()
    &&& s.markers@.by_image == Map::<ImageId, Seq<MarkerId>>::empty()
    &&& s.thumbnails@ == Map::<ImageId, Seq<u8>>::empty()
    &&& s.bunny_cache@ == Map::<MarkerId, BunnyCacheView>::empty()
}

impl AppState {
    /// An empty state with the default image memory limit.
    pub fn new() -> (s: Self)
        ensures
            is_empty_state(s, default_max_memory()),
            s.project_ids.peek() == 1,
            s.image_ids.peek() == 1,
            s.marker_ids.peek() == 1,
    {
        Self::with_memory_limit(default_max_memory_exec())
    }

    /// An empty state with the given image memory limit.
    pub fn with_memory_limit(max_memory: usize) -> (s: Self)
        ensures
            is_empty_state(s, max_memory),
            s.project_ids.peek() == 1,
            s.image_ids.peek() == 1,
            s.marker_ids.peek() == 1,
    {
        AppState {
            projects: ProjectStorage::new(),
            images: ImageStorage::new(max_memory),
            markers: MarkerStorage::new(),
            thumbnails: ThumbnailStorage::new(),
            bunny_cache: BunnyCacheStorage::new(),
            project_ids: IdGenerator::new(),
            image_ids: IdGenerator::new(),
            marker_ids: IdGenerator::new(),
        }
    }

    /// A copy of a project, if any.
    pub fn get_project(&self, id: ProjectId) -> (r: CoreResult<Option<Project>>)
        ensures
            match r {
                Ok(Some(p)) => self.projects@.contains_key(id) && p@ == self.projects@[id],
                Ok(None) => !self.projects@.contains_key(id),
                Err(_) => false,
            },
    {
        match self.projects.get(id) {
            Some(p) => Ok(Some(p.clone())),
            None => Ok(None),
        }
    }

    /// A copy of an image, if any.
    pub fn get_image(&self, id: ImageId) -> (r: CoreResult<Option<Image>>)
        ensures
            match r {
                Ok(Some(i)) => self.images@.images.contains_key(id) && i@ == self.images@.images[id],
                Ok(None) => !self.images@.images.contains_key(id),
                Err(_) => false,
            },
    {
        Ok(self.images.get_arc(id))
    }

    /// Copies of the stored markers of a page, in the page's order.
    pub fn get_markers_for_image(&self, image_id: ImageId) -> (r: CoreResult<Vec<Marker>>)
        ensures
            match r {
                Ok(v) => v@.map_values(|m: Marker| m@) == present_markers(
                    page_list(self.markers@.by_image, image_id),
                    self.markers@.markers,
                ),
                Err(_) => false,
            },
    {
        let refs = self.markers.get_by_image(image_id);
        let mut out: Vec<Marker> = Vec::new();
        let mut i: usize = 0;
        while i < refs.len()
            invariant
                i <= refs@.len(),
                out@.len() == i,
                forall|j: int| 0 <= j < i ==> out@[j]@ == refs@[j]@,
            decreases refs@.len() - i,
        {
            out.push(refs[i].clone());
            i = i + 1;
        }
        assert(out@.map_values(|m: Marker| m@) =~= refs@.map_values(|m: &Marker| m@));
        Ok(out)
    }

    /// Empties every store (identifier sources and the image limit stay).
    pub fn clear_all(&mut self) -> (r: CoreResult<()>)
        ensures
            r == Ok::<(), CoreError>(()),
            is_empty_state(*final(self), old(self).images@.max_memory),
            final(self).project_ids == old(self).project_ids,
            final(self).image_ids == old(self).image_ids,
            final(self).marker_ids == old(self).marker_ids,
    {
        self.projects.clear();
        self.images.clear();
        self.markers.clear();
        self.thumbnails.clear();
        self.bunny_cache.clear();
        Ok(())
    }
}

/// A page's marker list, empty when it has none.
pub open spec fn page_list(by_image: Map<ImageId, Seq<MarkerId>>, image_id: ImageId) -> Seq<MarkerId> {
    if by_image.contains_key(image_id) {
        by_image[image_id]
    } else {
        Seq::empty()
    }
}

/// The stored markers named by `ids`, in that order, skipping missing ones.
pub open spec fn present_markers(ids: Seq<MarkerId>, ms: Map<MarkerId, MarkerView>) -> Seq<MarkerView>
    decreases ids.len(),
{
    if ids.len() == 0 {
        Seq::empty()
    } else {
        let rest = present_markers(ids.drop_last(), ms);
        if ms.contains_key(ids.last()) {
            rest.push(ms[ids.last()])
        } else {
            rest
        }
    }
}

/// The per-page index after `id` is dropped from the list of `image_id`;
/// the list goes when nothing else is left in it.
pub open spec fn list_without(by_image: Map<ImageId, Seq<MarkerId>>, image_id: ImageId, id: MarkerId) -> Map<
    ImageId,
    Seq<MarkerId>,
> {
    if by_image.contains_key(image_id) {
        let rest = without(by_image[image_id], id);
        if rest.len() > 0 {
            by_image.insert(image_id, rest)
        } else {
            by_image.remove(image_id)
        }
    } else {
        by_image
    }
}

/// Lemma: taking a key out and putting a list back is the same as putting
/// the list.
pub proof fn lemma_remove_insert_seq(m: Map<u32, Seq<u32>>, k: u32, v: Seq<u32>)
    ensures
        m.remove(k).insert(k, v) == m.insert(k, v),
{
    assert(m.remove(k).insert(k, v) =~= m.insert(k, v));
}

} // verus!
