use bubblefish_core::events::DomainEvent;
use bubblefish_core::image::add_image_from_binary_storage;
use bubblefish_core::image_data::ImageFormat;
use bubblefish_core::marker::MarkerGeometry;
use bubblefish_core::marker_service::MarkerService;
use bubblefish_core::project::{add_image_to_project_storage, create_project_storage};
use bubblefish_core::state::AppState;
use bubblefish_core::undo_service::UndoRedoService;
use bubblefish_core::marker::get_image_markers_storage;
use bubblefish_core::image::get_image_marker_ids_storage;
use bubblefish_core::undo_stack::{UndoRedoStack, MAX_UNDO_HISTORY};
use bubblefish_core::undo_actions::{ActionType, UndoRedoAction};

fn png_bytes(width: u32, height: u32) -> Vec<u8> {
    let mut v = vec![0x89, b'P', b'N', b'G', 0x0D, 0x0A, 0x1A, 0x0A, 0, 0, 0, 13, b'I', b'H', b'D', b'R'];
    v.extend_from_slice(&width.to_be_bytes());
    v.extend_from_slice(&height.to_be_bytes());
    v.extend_from_slice(&[8, 2, 0, 0, 0]);
    v
}

/// A state with one project holding one page; returns (state, project, page).
fn one_page_project() -> (AppState, u32, u32) {
    let mut state = AppState::new();
    let pid = create_project_storage(&mut state.projects, &mut state.project_ids, "Comic".to_string()).unwrap();
    let img = add_image_from_binary_storage(
        &mut state.images,
        &mut state.image_ids,
        ImageFormat::Png,
        png_bytes(10, 20),
        Some("p1.png".to_string()),
    )
    .unwrap();
    assert!(add_image_to_project_storage(&mut state.projects, pid, img).unwrap());
    (state, pid, img)
}

fn feed(undo: &mut UndoRedoService, state: &AppState, events: &[DomainEvent]) {
    for e in events {
        undo.handle(&state.markers, &state.projects, e);
    }
}

#[test]
fn binary_image_gets_dimensions_and_checksum() {
    let (state, _pid, img) = one_page_project();
    let image = state.images.get(img).unwrap();
    assert_eq!(image.metadata.width, Some(10));
    assert_eq!(image.metadata.height, Some(20));
    assert_eq!(image.metadata.checksum.as_ref().unwrap().len(), 32);
}

#[test]
fn markers_are_numbered_in_order_of_addition() {
    let (mut state, _pid, img) = one_page_project();
    let svc = MarkerService;
    let a = svc
        .add_point_marker_to_image(&mut state.markers, &mut state.images, &mut state.marker_ids, img, 1, 2, None)
        .unwrap();
    let b = svc
        .add_rectangle_marker_to_image(
            &mut state.markers,
            &mut state.images,
            &mut state.marker_ids,
            img,
            3,
            4,
            5,
            6,
            Some("hello".to_string()),
        )
        .unwrap();
    assert_eq!(state.markers.get(a).unwrap().image_index, 1);
    assert_eq!(state.markers.get(b).unwrap().image_index, 2);
    assert_eq!(state.markers.get(b).unwrap().translation, "hello");
    assert_eq!(state.images.get(img).unwrap().marker_ids, vec![a, b]);
}

#[test]
fn undo_restores_translation_and_redo_reapplies_it() {
    let (mut state, pid, img) = one_page_project();
    let svc = MarkerService;
    let mut undo = UndoRedoService::new();
    let mut events: Vec<DomainEvent> = Vec::new();
    let id = svc
        .add_point_marker_to_image(
            &mut state.markers,
            &mut state.images,
            &mut state.marker_ids,
            img,
            7,
            8,
            Some("old".to_string()),
        )
        .unwrap();
    let changed = svc
        .update_marker_translation_with_undo(&mut state.markers, &mut events, id, "new".to_string())
        .unwrap();
    assert!(changed);
    feed(&mut undo, &state, &events);
    assert_eq!(undo.can_undo(pid).unwrap(), true);
    assert_eq!(state.markers.get(id).unwrap().translation, "new");

    let mut ev2: Vec<DomainEvent> = Vec::new();
    let r = undo.undo(&mut state, &mut ev2, pid);
    assert!(r.success);
    assert_eq!(r.marker_id, Some(id));
    assert_eq!(state.markers.get(id).unwrap().translation, "old");
    assert_eq!(undo.can_redo(pid).unwrap(), true);

    let r = undo.redo(&mut state, &mut ev2, pid);
    assert!(r.success);
    assert_eq!(state.markers.get(id).unwrap().translation, "new");
}

#[test]
fn undo_with_empty_history_reports_nothing() {
    let (mut state, pid, _img) = one_page_project();
    let mut undo = UndoRedoService::new();
    let mut events: Vec<DomainEvent> = Vec::new();
    let r = undo.undo(&mut state, &mut events, pid);
    assert_eq!(r.image_id, None);
    assert_eq!(r.marker_id, None);
    assert!(events.is_empty());
}

#[test]
fn moving_a_rectangle_as_a_point_is_refused() {
    let (mut state, _pid, img) = one_page_project();
    let svc = MarkerService;
    let mut events: Vec<DomainEvent> = Vec::new();
    let id = svc
        .add_rectangle_marker_to_image(&mut state.markers, &mut state.images, &mut state.marker_ids, img, 1, 1, 2, 2, None)
        .unwrap();
    let r = svc.update_point_marker_position_with_undo(&mut state.markers, &mut events, id, 9, 9).unwrap();
    assert!(!r);
    assert!(events.is_empty());
    match state.markers.get(id).unwrap().geometry {
        MarkerGeometry::Rectangle { x, y, width, height } => assert_eq!((x, y, width, height), (1, 1, 2, 2)),
        _ => panic!("geometry changed"),
    }
}

#[test]
fn style_update_announces_old_and_new_style() {
    let (mut state, _pid, img) = one_page_project();
    let svc = MarkerService;
    let mut events: Vec<DomainEvent> = Vec::new();
    let id = svc
        .add_point_marker_to_image(&mut state.markers, &mut state.images, &mut state.marker_ids, img, 1, 1, None)
        .unwrap();
    assert!(svc.update_marker_style(&mut state.markers, &mut events, id, true, true));
    assert_eq!(events.len(), 2);
    match &events[0] {
        DomainEvent::MarkerStyleUpdated { id: eid, old_style, new_style } => {
            assert_eq!(*eid, id);
            assert!(!old_style.overlay_text && !old_style.horizontal);
            assert!(new_style.overlay_text && new_style.horizontal);
        },
        _ => panic!("unexpected event"),
    }
    assert!(matches!(events[1], DomainEvent::MarkerUpdated(x) if x == id));
}

#[test]
fn removing_a_marker_renumbers_the_rest() {
    let (mut state, _pid, img) = one_page_project();
    let svc = MarkerService;
    let mut events: Vec<DomainEvent> = Vec::new();
    let a = svc
        .add_point_marker_to_image(&mut state.markers, &mut state.images, &mut state.marker_ids, img, 1, 1, None)
        .unwrap();
    let b = svc
        .add_point_marker_to_image(&mut state.markers, &mut state.images, &mut state.marker_ids, img, 2, 2, None)
        .unwrap();
    assert!(svc.remove_marker(&mut state.markers, &mut state.images, &mut events, a));
    assert!(state.markers.get(a).is_none());
    assert_eq!(state.markers.get(b).unwrap().image_index, 1);
    assert_eq!(state.images.get(img).unwrap().marker_ids, vec![b]);
    assert!(matches!(events.last(), Some(DomainEvent::MarkerDeleted(x)) if *x == a));
}

#[test]
fn clearing_a_page_undoes_in_page_order_and_redoes_the_clear() {
    let (mut state, pid, img) = one_page_project();
    let svc = MarkerService;
    let mut undo = UndoRedoService::new();
    let a = svc.add_point_marker_to_image(&mut state.markers, &mut state.images, &mut state.marker_ids, img, 1, 1, None).unwrap();
    let b = svc.add_point_marker_to_image(&mut state.markers, &mut state.images, &mut state.marker_ids, img, 2, 2, None).unwrap();
    let mut events: Vec<DomainEvent> = Vec::new();
    svc.clear_image_markers_with_undo(&mut state.markers, &mut state.images, &mut state.bunny_cache, &mut events, img).unwrap();
    feed(&mut undo, &state, &events);
    assert_eq!(state.markers.len(), 0);
    assert!(undo.undo_possible(&state, pid));

    let mut ev2: Vec<DomainEvent> = Vec::new();
    assert!(undo.undo(&mut state, &mut ev2, pid).success);
    assert_eq!(state.images.get(img).unwrap().marker_ids, vec![a, b]);
    assert_eq!(state.markers.get(a).unwrap().image_index, 1);
    assert_eq!(state.markers.get(b).unwrap().image_index, 2);

    assert!(undo.redo_possible(&state, pid));
    assert!(undo.redo(&mut state, &mut ev2, pid).success);
    assert_eq!(state.markers.len(), 0);
    assert!(state.images.get(img).unwrap().marker_ids.is_empty());
    assert!(ev2.is_empty());
}

#[test]
fn history_goes_to_the_smallest_project_listing_the_page() {
    let (mut state, first, img) = one_page_project();
    let second = create_project_storage(&mut state.projects, &mut state.project_ids, "Other".to_string()).unwrap();
    assert!(add_image_to_project_storage(&mut state.projects, second, img).unwrap());
    assert_eq!(
        bubblefish_core::project::find_project_by_image_storage(&state.projects, img).unwrap(),
        Some(first.min(second))
    );
    let svc = MarkerService;
    let mut undo = UndoRedoService::new();
    let id = svc.add_point_marker_to_image(&mut state.markers, &mut state.images, &mut state.marker_ids, img, 1, 1, None).unwrap();
    let mut events: Vec<DomainEvent> = Vec::new();
    svc.update_marker_translation_with_undo(&mut state.markers, &mut events, id, "x".to_string()).unwrap();
    feed(&mut undo, &state, &events);
    assert!(undo.can_undo(first.min(second)).unwrap());
    assert!(!undo.can_undo(first.max(second)).unwrap());
}

#[test]
fn a_full_history_drops_its_oldest_entry() {
    let mut stack = UndoRedoStack::new();
    let mut ids = Vec::new();
    for i in 0..(MAX_UNDO_HISTORY + 1) {
        let a = UndoRedoAction::new(
            ActionType::UpdateProjectName { old_name: format!("n{}", i), new_name: format!("n{}", i + 1) },
            7,
        );
        ids.push(a.id);
        stack.push_action(a).unwrap();
    }
    assert_eq!(stack.get_current_commit_id(7).unwrap(), Some(ids[MAX_UNDO_HISTORY]));
    let mut popped = Vec::new();
    while let Some(a) = stack.pop_undo_action(7).unwrap() {
        popped.push(a.id);
    }
    assert_eq!(popped.len(), MAX_UNDO_HISTORY);
    assert_eq!(*popped.last().unwrap(), ids[1]);
    assert!(!popped.contains(&ids[0]));
    assert_eq!(stack.get_current_commit_id(8).unwrap(), None);
}

#[test]
fn restoring_taken_markers_puts_the_page_back() {
    let (mut state, _pid, img) = one_page_project();
    let svc = MarkerService;
    for k in 0..3u64 {
        svc.add_point_marker_to_image(&mut state.markers, &mut state.images, &mut state.marker_ids, img, k, k, None)
            .unwrap();
    }
    let before_ids = get_image_marker_ids_storage(&state.images, img).unwrap();
    let before: Vec<String> =
        get_image_markers_storage(&state.markers, img).unwrap().iter().map(|m| format!("{:?}", m)).collect();
    let taken = svc.take_image_markers(&mut state.markers, &mut state.images, img).unwrap();
    assert_eq!(taken.len(), 3);
    assert!(get_image_marker_ids_storage(&state.images, img).unwrap().is_empty());
    assert!(get_image_markers_storage(&state.markers, img).unwrap().is_empty());
    svc.restore_image_markers(&mut state.markers, &mut state.images, taken).unwrap();
    assert_eq!(get_image_marker_ids_storage(&state.images, img).unwrap(), before_ids);
    let after: Vec<String> =
        get_image_markers_storage(&state.markers, img).unwrap().iter().map(|m| format!("{:?}", m)).collect();
    assert_eq!(after, before);
}

#[test]
fn moving_a_marker_keeps_the_page_numbered() {
    let (mut state, _pid, img) = one_page_project();
    let svc = MarkerService;
    let mut ids = Vec::new();
    for k in 0..4u64 {
        ids.push(
            svc.add_point_marker_to_image(&mut state.markers, &mut state.images, &mut state.marker_ids, img, k, k, None)
                .unwrap(),
        );
    }
    let mut events = Vec::new();
    // The last marker moves to the front; the others shift back by one.
    assert_eq!(svc.move_marker_order_with_undo(&mut state.markers, &mut events, ids[3], 1), Ok(true));
    let idx: Vec<u32> = ids.iter().map(|id| state.markers.get(*id).unwrap().image_index).collect();
    assert_eq!(idx, vec![2, 3, 4, 1]);
    assert_eq!(events.len(), 1);
    // The first marker moves to third place; those between move forward.
    assert_eq!(svc.move_marker_order_with_undo(&mut state.markers, &mut events, ids[0], 3), Ok(true));
    let idx: Vec<u32> = ids.iter().map(|id| state.markers.get(*id).unwrap().image_index).collect();
    assert_eq!(idx, vec![3, 2, 4, 1]);
    let mut sorted = idx.clone();
    sorted.sort();
    assert_eq!(sorted, vec![1, 2, 3, 4]);
    // An unknown marker is refused without change.
    assert_eq!(svc.move_marker_order_with_undo(&mut state.markers, &mut events, 999, 1), Ok(false));
    assert_eq!(events.len(), 2);
}
