use bubblefish_core::checksum::md5_hex;
use bubblefish_core::error::CoreError;
use bubblefish_core::events::DomainEvent;
use bubblefish_core::ids::IdGenerator;
use bubblefish_core::image::add_image_from_binary_storage;
use bubblefish_core::image_data::ImageFormat;
use bubblefish_core::io_events::{handle_parse_labelplus, IoEventHandler};
use bubblefish_core::labelplus::parse_labelplus_file;
use bubblefish_core::opening_handlers::{
    add_image_to_opening_project, create_empty_opening_project, create_opening_project_with_labelplus,
    delete_opening_project, finalize_opening_project, flush_opening_project_images, get_opening_project_info,
};
use bubblefish_core::opening_project::{normalize_file_name, OpeningProjectStorage};
use bubblefish_core::project_data::ProjectFormat;
use bubblefish_core::state::AppState;
use bubblefish_core::stats::StatsService;
use bubblefish_core::thumbnail::{request_thumbnail, request_thumbnails_batch, ThumbnailStep};

const SAMPLE: &str = "1,0\n-\n框内\n框外\n-\nnote\n\n>>>>>>>>[a.png]<<<<<<<<\n----------------[1]----------------[0.5,0.25,1]\nhello\n\n>>>>>>>>[b.png]<<<<<<<<\n";

fn png_bytes(width: u32, height: u32) -> Vec<u8> {
    let mut v = vec![0x89, b'P', b'N', b'G', 0x0D, 0x0A, 0x1A, 0x0A, 0, 0, 0, 13, b'I', b'H', b'D', b'R'];
    v.extend_from_slice(&width.to_be_bytes());
    v.extend_from_slice(&height.to_be_bytes());
    v.extend_from_slice(&[8, 2, 0, 0, 0]);
    v
}

#[test]
fn md5_of_known_text() {
    assert_eq!(md5_hex(b"abc"), "900150983cd24fb0d6963f7d28e17f72");
    assert_eq!(md5_hex(b""), "d41d8cd98f00b204e9800998ecf8427e");
}

#[test]
fn project_formats_by_extension() {
    assert_eq!(ProjectFormat::from_extension("TXT"), Some(ProjectFormat::Labelplus));
    assert_eq!(ProjectFormat::from_extension("lp"), Some(ProjectFormat::Labelplus));
    assert_eq!(ProjectFormat::from_extension("Bf"), Some(ProjectFormat::Bubblefish));
    assert_eq!(ProjectFormat::from_extension("zip"), None);
    assert_eq!(ProjectFormat::Bubblefish.mime_type(), "application/gzip");
    assert_eq!(ProjectFormat::Labelplus.extension(), "txt");
}

#[test]
fn a_format_extension_names_its_format_in_any_case() {
    for f in [ProjectFormat::Labelplus, ProjectFormat::Bubblefish] {
        assert_eq!(ProjectFormat::from_extension(f.extension()), Some(f));
        let upper = f.extension().to_uppercase();
        assert_eq!(ProjectFormat::from_extension(&upper), Some(f));
    }
    assert_eq!(ProjectFormat::from_extension("LP"), Some(ProjectFormat::Labelplus));
    assert_eq!(ProjectFormat::from_extension("Txt"), Some(ProjectFormat::Labelplus));
    assert_eq!(ProjectFormat::from_extension("BF"), Some(ProjectFormat::Bubblefish));
    assert_eq!(ProjectFormat::from_extension("gz"), None);
}

#[test]
fn file_names_are_compared_by_their_last_component() {
    assert_eq!(normalize_file_name("dir/sub/a.png"), "a.png");
    assert_eq!(normalize_file_name("a.png"), "a.png");
}

#[test]
fn labelplus_sample_parses() {
    let d = parse_labelplus_file(SAMPLE).unwrap();
    assert_eq!(d.marker_types.len(), 2);
    assert_eq!(d.marker_types[0].name, "框内");
    assert_eq!(d.image_order, vec!["a.png".to_string(), "b.png".to_string()]);
    let a = d.markers_by_image.get("a.png").unwrap();
    assert_eq!(a.markers.len(), 1);
    assert_eq!(a.markers[0].x, "0.5");
    assert_eq!(a.markers[0].translation, "hello");
    assert_eq!(d.markers_by_image.get("b.png").unwrap().markers.len(), 0);
}

#[test]
fn labelplus_errors_name_the_field() {
    match parse_labelplus_file("") {
        Err(CoreError::ValidationFailed { field, reason }) => {
            assert_eq!(field, "content");
            assert_eq!(reason, "空文件");
        },
        _ => panic!("expected an error"),
    }
    match parse_labelplus_file("2,0\n-\n") {
        Err(CoreError::ValidationFailed { field, .. }) => assert_eq!(field, "magic_number"),
        _ => panic!("expected an error"),
    }
}

#[test]
fn blank_project_names_are_refused() {
    let mut ids = IdGenerator::new();
    let mut openings = OpeningProjectStorage::new();
    let mut events: Vec<DomainEvent> = Vec::new();
    match create_empty_opening_project(&mut ids, &mut openings, &mut events, "  \t".to_string()) {
        Err(CoreError::ValidationFailed { field, .. }) => assert_eq!(field, "project_name"),
        _ => panic!("expected a refusal"),
    }
    assert!(events.is_empty());
    let id = create_empty_opening_project(&mut ids, &mut openings, &mut events, "Book".to_string()).unwrap();
    assert_eq!(id, 1);
    assert!(matches!(&events[0], DomainEvent::OpeningProjectCreated(p, n) if *p == 1 && n == "Book"));
}

#[test]
fn opening_a_labelplus_project_end_to_end() {
    let mut state = AppState::new();
    let mut openings = OpeningProjectStorage::new();
    let mut events: Vec<DomainEvent> = Vec::new();
    let pid = create_opening_project_with_labelplus(
        &mut state.project_ids,
        &mut openings,
        &mut events,
        SAMPLE.to_string(),
        "Book".to_string(),
    )
    .unwrap();
    assert_eq!(events.len(), 2);
    let handler = IoEventHandler::new();
    let ev = events.remove(0);
    assert!(handler.handle(&mut openings, &ev).is_none());
    let info = get_opening_project_info(&openings, pid).unwrap().unwrap();
    assert_eq!(info.required_images, vec!["a.png".to_string(), "b.png".to_string()]);
    assert!(!info.is_complete);

    let mut evs: Vec<DomainEvent> = Vec::new();
    match finalize_opening_project(&mut state, &mut openings, &mut evs, pid) {
        Err(CoreError::ValidationFailed { field, .. }) => assert_eq!(field, "images"),
        _ => panic!("incomplete project finalized"),
    }

    let b = add_image_from_binary_storage(&mut state.images, &mut state.image_ids, ImageFormat::Png, png_bytes(1, 1), Some("b.png".to_string())).unwrap();
    let a = add_image_from_binary_storage(&mut state.images, &mut state.image_ids, ImageFormat::Png, png_bytes(1, 1), Some("a.png".to_string())).unwrap();
    add_image_to_opening_project(&mut openings, pid, b, Some("b.png".to_string()), None).unwrap();
    add_image_to_opening_project(&mut openings, pid, a, None, Some("/x/y/a.png".to_string())).unwrap();
    let info = get_opening_project_info(&openings, pid).unwrap().unwrap();
    assert!(info.is_complete);
    assert_eq!(info.uploaded_images, vec!["a.png".to_string(), "b.png".to_string()]);

    assert_eq!(finalize_opening_project(&mut state, &mut openings, &mut evs, pid).unwrap(), true);
    let project = state.projects.get(pid).unwrap();
    assert_eq!(project.image_ids, vec![a, b]);
    let stats = StatsService::new().get_project_stats(&state, pid).unwrap();
    assert_eq!(stats.image_count, 2);
    assert_eq!(stats.marker_count, 1);
    assert!(matches!(evs.last(), Some(DomainEvent::OpeningProjectFinalized(p)) if *p == pid));
    assert_eq!(finalize_opening_project(&mut state, &mut openings, &mut evs, pid).unwrap(), false);
}

#[test]
fn unwanted_pages_are_flushed_and_deleting_drops_pages() {
    let mut state = AppState::new();
    let mut openings = OpeningProjectStorage::new();
    let mut events: Vec<DomainEvent> = Vec::new();
    let pid = create_opening_project_with_labelplus(
        &mut state.project_ids,
        &mut openings,
        &mut events,
        SAMPLE.to_string(),
        "Book".to_string(),
    )
    .unwrap();
    handle_parse_labelplus(&mut openings, pid, SAMPLE.to_string());
    let a = add_image_from_binary_storage(&mut state.images, &mut state.image_ids, ImageFormat::Png, png_bytes(1, 1), Some("a.png".to_string())).unwrap();
    add_image_to_opening_project(&mut openings, pid, a, None, None).unwrap();
    let info = get_opening_project_info(&openings, pid).unwrap().unwrap();
    assert!(info.uploaded_images.is_empty());
    assert!(flush_opening_project_images(&mut state.images, &mut openings, pid).unwrap());
    assert!(!flush_opening_project_images(&mut state.images, &mut openings, pid + 7).unwrap());
    let mut evs: Vec<DomainEvent> = Vec::new();
    assert!(delete_opening_project(&mut state.images, &mut openings, &mut evs, pid).unwrap());
    assert!(get_opening_project_info(&openings, pid).unwrap().is_none());
}

#[test]
fn thumbnails_are_requested_once() {
    let mut state = AppState::new();
    let img = add_image_from_binary_storage(&mut state.images, &mut state.image_ids, ImageFormat::Png, png_bytes(2, 2), None).unwrap();
    match request_thumbnail(&state.images, &mut state.thumbnails, img).unwrap() {
        ThumbnailStep::Generate => {},
        _ => panic!("expected rendering"),
    }
    match request_thumbnail(&state.images, &mut state.thumbnails, img).unwrap() {
        ThumbnailStep::Pending => {},
        _ => panic!("expected nothing while rendering"),
    }
    match request_thumbnail(&state.images, &mut state.thumbnails, img + 1) {
        Err(CoreError::NotFound(m)) => assert_eq!(m, format!("Image with id {} not found", img + 1)),
        _ => panic!("expected not found"),
    }
    state.thumbnails.insert(img, vec![7, 8]);
    match request_thumbnail(&state.images, &mut state.thumbnails, img).unwrap() {
        ThumbnailStep::Push(t) => assert_eq!(t.data, vec![7, 8]),
        _ => panic!("expected the stored thumbnail"),
    }
    state.thumbnails.insert(img, Vec::new());
    let ids = vec![img, img + 1];
    let first = request_thumbnails_batch(&state.images, &mut state.thumbnails, &ids);
    assert!(first.pending.is_empty());
    assert!(first.ready.is_empty());
}

#[test]
fn batch_request_twice_renders_nothing_new() {
    let mut state = AppState::new();
    let a = add_image_from_binary_storage(&mut state.images, &mut state.image_ids, ImageFormat::Png, png_bytes(2, 2), None).unwrap();
    let b = add_image_from_binary_storage(&mut state.images, &mut state.image_ids, ImageFormat::Png, png_bytes(3, 3), None).unwrap();
    let ids = vec![a, b, a, 99];
    let first = request_thumbnails_batch(&state.images, &mut state.thumbnails, &ids);
    assert_eq!(first.pending, vec![a, b]);
    let second = request_thumbnails_batch(&state.images, &mut state.thumbnails, &ids);
    assert!(second.pending.is_empty());
}

#[test]
fn labelplus_types_are_capped_at_nine_and_numbered_in_order() {
    let mut text = String::from("1,0\n-\n");
    for k in 0..12 {
        text.push_str(&format!("t{}\n", k));
    }
    text.push_str("-\ncomment\n>>>>>>>>[p1.png]<<<<<<<<\n----------------[1]----------------[0.1,0.2,9]\nx\n\n");
    text.push_str(">>>>>>>>[p2.png]<<<<<<<<\n");
    let d = parse_labelplus_file(&text).unwrap();
    assert_eq!(d.marker_types.len(), 9);
    for (k, t) in d.marker_types.iter().enumerate() {
        assert_eq!(t.id as usize, k + 1);
        assert_eq!(t.name, format!("t{}", k));
    }
    assert_eq!(d.image_order, vec!["p1.png".to_string(), "p2.png".to_string()]);
    assert_eq!(d.markers_by_image.len(), 2);
    assert!(d.markers_by_image.contains_key("p1.png") && d.markers_by_image.contains_key("p2.png"));
    assert_eq!(d.markers_by_image.get("p1.png").unwrap().markers[0].type_id, 9);
    // A tenth type is never defined.
    let bad = text.replace("[0.1,0.2,9]", "[0.1,0.2,10]");
    match parse_labelplus_file(&bad) {
        Err(CoreError::ValidationFailed { field, .. }) => assert_eq!(field, "type_id"),
        _ => panic!("expected an error"),
    }
}
