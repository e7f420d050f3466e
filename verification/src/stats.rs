use vstd::prelude::*;
use crate::ids::{ImageId, ProjectId};
use crate::image::ImageView;
use crate::image::get_image_marker_ids_storage;
use crate::project::{get_project_image_ids_storage, project_exists_storage};
use crate::state::AppState;
use crate::bf::image_marker_ids;

verus! {

/// Counts over the whole library.
#[derive(Debug, Clone, Copy, PartialEq, Eq, Structural)]
pub struct ProjectStats {
    pub project_count: usize,
    pub image_count: usize,
    pub marker_count: usize,
}

/// Counts over one project.
#[derive(Debug, Clone, Copy, PartialEq, Eq, Structural)]
pub struct SingleProjectStats {
    pub image_count: usize,
    pub marker_count: usize,
}

/// The number of markers listed by the pages `ids` (a page that is not
/// stored counts none; a page listed twice counts twice).
pub open spec fn listed_marker_count(ids: Seq<ImageId>, images: Map<ImageId, ImageView>) -> nat
    decreases ids.len(),
{
    if ids.len() == 0 {
        0
    } else {
        listed_marker_count(ids.drop_last(), images) + (if images.contains_key(ids.last()) {
            images[ids.last()].marker_ids.len()
        } else {
            0
        })
    }
}

/// Computes statistics of the library.
pub struct StatsService;

impl StatsService {
    /// The service.
    pub fn new() -> (s: Self) {
        StatsService
    }

    /// How many projects, images and markers are stored.
    pub fn get_overall_stats(&self, state: &AppState) -> (r: ProjectStats)
        ensures
            r.project_count == state.projects@.dom().len(),
            r.image_count == state.images@.images.dom().len(),
            r.marker_count == state.markers@.markers.dom().len(),
    {
        let project_count = state.projects.len();
        let image_count = state.images.len();
        let marker_count = state.markers.len();
        ProjectStats { project_count, image_count, marker_count }
    }

    /// The number of pages of a project and of the markers its pages list;
    /// `None` for an unknown project.
    pub fn get_project_stats(&self, state: &AppState, project_id: u32) -> (r: Option<SingleProjectStats>)
        requires
            state.projects@.contains_key(project_id) ==> listed_marker_count(
                state.projects@[project_id].image_ids,
                state.images@.images,
            ) <= usize::MAX,
        ensures
            match r {
                Some(s) => {
                    &&& state.projects@.contains_key(project_id)
                    &&& s.image_count == state.projects@[project_id].image_ids.len()
                    &&& s.marker_count == listed_marker_count(
                        state.projects@[project_id].image_ids,
                        state.images@.images,
                    )
                },
                None => !state.projects@.contains_key(project_id),
            },
    {
        let exists = match project_exists_storage(&state.projects, project_id) {
            Ok(e) => e,
            Err(_) => false,
        };
        if !exists {
            return None;
        }
        let image_ids = match get_project_image_ids_storage(&state.projects, project_id) {
            Ok(ids) => ids,
            Err(_) => Vec::new(),
        };
        let ghost ids = image_ids@;
        let ghost images = state.images@.images;
        let image_count = image_ids.len();
        let mut marker_count: usize = 0;
        let mut i: usize = 0;
        while i < image_ids.len()
            invariant
                i <= ids.len(),
                image_ids@ == ids,
                images == state.images@.images,
                ids == state.projects@[project_id].image_ids,
                listed_marker_count(ids, images) <= usize::MAX,
                marker_count == listed_marker_count(ids.take(i as int), images),
            decreases ids.len() - i,
        {
            proof {
                assert(ids.take(i + 1).drop_last() =~= ids.take(i as int));
                lemma_listed_count_prefix(ids, images, i + 1);
            }
            let n = match get_image_marker_ids_storage(&state.images, image_ids[i]) {
                Ok(m) => m.len(),
                Err(_) => 0,
            };
            marker_count = marker_count + n;
            i = i + 1;
        }
        assert(ids.take(ids.len() as int) =~= ids);
        Some(SingleProjectStats { image_count, marker_count })
    }
}

/// The count over a prefix is at most the count over the whole list.
pub proof fn lemma_listed_count_prefix(ids: Seq<ImageId>, images: Map<ImageId, ImageView>, n: int)
    requires
        0 <= n <= ids.len(),
    ensures
        listed_marker_count(ids.take(n), images) <= listed_marker_count(ids, images),
    decreases ids.len(),
{
    if n < ids.len() {
        assert(ids.drop_last().take(n) =~= ids.take(n));
        lemma_listed_count_prefix(ids.drop_last(), images, n);
    } else {
        assert(ids.take(n) =~= ids);
    }
}

/// A project's marker count is the number of marker identifiers its pages
/// list, page after page (the identifiers a project file saves).
pub proof fn law_marker_count_is_listed_ids(ids: Seq<ImageId>, images: Map<ImageId, ImageView>)
    ensures
        listed_marker_count(ids, images) == image_marker_ids(ids, images).len(),
    decreases ids.len(),
{
    if ids.len() > 0 {
        law_marker_count_is_listed_ids(ids.drop_last(), images);
    }
}

/// Counting markers adds up page by page: the count over two lists of
/// pages is the sum of their counts, and one stored page counts every marker
/// it lists (a page that is not stored counts none).
pub proof fn law_marker_count_adds_pages(a: Seq<ImageId>, b: Seq<ImageId>, images: Map<ImageId, ImageView>)
    ensures
        listed_marker_count(a + b, images) == listed_marker_count(a, images) + listed_marker_count(b, images),
        forall|p: ImageId|
            #[trigger] listed_marker_count(seq![p], images) == (if images.contains_key(p) {
                images[p].marker_ids.len()
            } else {
                0
            }),
    decreases b.len(),
{
    assert forall|p: ImageId|
        #[trigger] listed_marker_count(seq![p], images) == (if images.contains_key(p) {
            images[p].marker_ids.len()
        } else {
            0
        }) by {
        let one = seq![p];
        assert(one.drop_last() =~= Seq::<ImageId>::empty());
        assert(listed_marker_count(one.drop_last(), images) == 0);
        assert(one.last() == p);
    }
    if b.len() == 0 {
        assert(a + b =~= a);
    } else {
        law_marker_count_adds_pages(a, b.drop_last(), images);
        assert((a + b).drop_last() =~= a + b.drop_last());
    }
}

} // verus!
