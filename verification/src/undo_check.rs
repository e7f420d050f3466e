use vstd::prelude::*;
use crate::ids::MarkerId;
use crate::image::{Image, estimated_size_of};
use crate::image_data::ImageData;
use crate::marker::occurrences;
use crate::state::{AppState, MarkerStorage, page_list};
use crate::undo_actions::{ActionType, UndoRedoAction};
use crate::undo_performer::{core_of, undo_requires};

verus! {

/// How often `k` is on `list`.
fn count_in(list: &Vec<MarkerId>, k: MarkerId) -> (r: u64)
    ensures
        r == occurrences(list@, k),
{
    let mut n: u64 = 0;
    let mut i: usize = 0;
    while i < list.len()
        invariant
            i <= list@.len(),
            n == occurrences(list@.take(i as int), k),
            n <= i,
        decreases list@.len() - i,
    {
        assert(list@.take(i as int + 1).drop_last() =~= list@.take(i as int));
        if list[i] == k {
            n = n + 1;
        }
        i = i + 1;
    }
    assert(list@.take(list@.len() as int) =~= list@);
    n
}

/// Whether an image's estimated size fits in a `usize` (see
/// `estimated_size_of`), and that size when it does.
fn size_of_image(image: &Image) -> (r: Option<usize>)
    ensures
        match r {
            Some(n) => estimated_size_of(image@) <= usize::MAX && n == estimated_size_of(image@),
            None => estimated_size_of(image@) > usize::MAX,
        },
{
    let data_size: usize = match &image.data {
        ImageData::Binary { data, .. } => data.len(),
        ImageData::FilePath(_) => 256,
        ImageData::SharedBuffer { .. } => 8,
    };
    let list = image.marker_ids.len();
    if list > (usize::MAX - 256) / 4 {
        return None;
    }
    let rest = 256 + list * 4;
    if data_size > usize::MAX - rest {
        return None;
    }
    Some(data_size + rest)
}

/// Whether moving a marker back in at index `index` on `page` keeps every
/// index of the markers it shifts within a `u32`.
fn shift_fits(markers: &MarkerStorage, page: u32, index: u32) -> (r: bool)
    ensures
        r == (forall|k: MarkerId|
            #![trigger markers@.markers[k]]
            markers@.markers.contains_key(k) && markers@.markers[k].image_index >= index
                ==> markers@.markers[k].image_index + occurrences(page_list(markers@.by_image, page), k)
                <= u32::MAX),
{
    let empty: Vec<MarkerId> = Vec::new();
    let list: &Vec<MarkerId> = match markers.image_list(page) {
        Some(v) => v,
        None => &empty,
    };
    assert(list@ == page_list(markers@.by_image, page));
    let ids = markers.ids();
    let mut i: usize = 0;
    while i < ids.len()
        invariant
            i <= ids@.len(),
            crate::collections::enumerates(ids@, markers@.markers.dom()),
            list@ == page_list(markers@.by_image, page),
            forall|j: int|
                #![trigger ids@[j]]
                0 <= j < i && markers@.markers[ids@[j]].image_index >= index ==> markers@.markers[ids@[j]].image_index
                    + occurrences(list@, ids@[j]) <= u32::MAX,
        decreases ids@.len() - i,
    {
        let k = ids[i];
        assert(markers@.markers.dom().contains(k));
        let m = markers.get(k).unwrap();
        if m.image_index >= index {
            let c = count_in(list, k);
            if c > (u32::MAX - m.image_index) as u64 {
                return false;
            }
        }
        i = i + 1;
    }
    assert forall|k: MarkerId|
        #![trigger markers@.markers[k]]
        markers@.markers.contains_key(k) && markers@.markers[k].image_index >= index implies markers@.markers[k].image_index
            + occurrences(page_list(markers@.by_image, page), k) <= u32::MAX by {
        assert(markers@.markers.dom().contains(k));
        let j = choose|j: int| 0 <= j < ids@.len() && ids@[j] == k;
    }
    true
}

/// Whether undoing (or redoing) `action` on `state` is possible: what
/// `perform_undo` and `perform_redo` need of the stores (see
/// `undo_requires`) holds.
pub fn undo_possible(state: &AppState, action: &UndoRedoAction) -> (r: bool)
    ensures
        r == undo_requires(core_of(*state), action@.action_type),
{
    match &action.action_type {
        ActionType::UpdateMarker { id, .. } => state.markers.contains(*id),
        ActionType::UpdatePointMarkerPosition { id, .. } => state.markers.contains(*id),
        ActionType::RemoveMarker { marker } => shift_fits(&state.markers, marker.image_id, marker.image_index),
        ActionType::AddImage { image, .. } => match state.images.get(image.metadata.id) {
            Some(stored) => size_of_image(stored).is_some(),
            None => true,
        },
        ActionType::RemoveImage { image, .. } => match size_of_image(image) {
            Some(n) => n <= usize::MAX - state.images.current_memory_usage(),
            None => false,
        },
        _ => true,
    }
}

} // verus!
