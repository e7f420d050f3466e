use bubblefish_core::bf_archive::{bf_member, pack_bf_archive, read_bf_archive};
use bubblefish_core::project_data::{ProjectData, ProjectFormat};
use bubblefish_core::dimension_extractor::header_would_overflow;
use bubblefish_core::thumbnail::{thumbnail_payload, ThumbnailData};
use bubblefish_core::error::CoreError;
use bubblefish_core::events::DomainEvent;
use bubblefish_core::ids::IdGenerator;
use bubblefish_core::image::add_image_from_binary_storage;
use bubblefish_core::image_data::{ImageData, ImageFormat};
use bubblefish_core::image_events::ImageBytes;
use bubblefish_core::image_service::ImageService;
use bubblefish_core::io_service::IOService;
use bubblefish_core::marker::MarkerGeometry;
use bubblefish_core::marker_service::MarkerService;
use bubblefish_core::opening_project::OpeningProjectStorage;
use bubblefish_core::opening_service::{OpenError, OpeningProjectService};
use bubblefish_core::project::create_project_storage;
use bubblefish_core::project::add_image_to_project_storage;
use bubblefish_core::state::AppState;
use bubblefish_core::strmap::StrMap;
use bubblefish_core::image::{Image, ImageMetadata};

const SAMPLE: &str = "1,0\n-\n框内\n框外\n-\nnote\n\n>>>>>>>>[a.png]<<<<<<<<\n----------------[1]----------------[0.5,0.25,1]\nhello\n";

fn png_bytes(width: u32, height: u32) -> Vec<u8> {
    let mut v = vec![0x89, b'P', b'N', b'G', 0x0D, 0x0A, 0x1A, 0x0A, 0, 0, 0, 13, b'I', b'H', b'D', b'R'];
    v.extend_from_slice(&width.to_be_bytes());
    v.extend_from_slice(&height.to_be_bytes());
    v.extend_from_slice(&[8, 2, 0, 0, 0]);
    v
}

#[test]
fn packed_archive_reads_back() {
    let bytes = pack_bf_archive("{\"m\":1}", "[]", "[{\"filename\":\"a.png\"}]", "[[]]").unwrap();
    assert_eq!(&bytes[0..2], &[0x1f, 0x8b]);
    let texts = read_bf_archive(&bytes).unwrap();
    assert_eq!(texts.metadata.as_deref(), Some("{\"m\":1}"));
    assert_eq!(texts.styles.as_deref(), Some("[]"));
    assert_eq!(texts.images.as_deref(), Some("[{\"filename\":\"a.png\"}]"));
    assert_eq!(texts.markers.as_deref(), Some("[[]]"));
}

#[test]
fn garbage_is_not_a_project_file() {
    match read_bf_archive(b"not gzip") {
        Err(CoreError::ValidationFailed { field, reason }) => {
            assert_eq!(field, "bf_file");
            assert!(reason.starts_with("Failed to decompress: "));
        },
        other => panic!("unexpected {:?}", other.is_ok()),
    }
}

#[test]
fn missing_documents_are_named() {
    match bf_member(None, "styles.json") {
        Err(CoreError::ValidationFailed { field, reason }) => {
            assert_eq!(field, "styles.json");
            assert_eq!(reason, "Missing styles.json in BF file");
        },
        _ => panic!("missing document accepted"),
    }
    assert_eq!(bf_member(Some("x".to_string()), "styles.json").unwrap(), "x");
}

#[test]
fn opening_from_bytes_dispatches_on_extension() {
    let mut ids = IdGenerator::new();
    let mut openings = OpeningProjectStorage::new();
    let mut events: Vec<DomainEvent> = Vec::new();
    let service = OpeningProjectService::new();
    match service.create_opening_project_from_binary(&mut ids, &mut openings, &mut events, vec![1, 2], "ZIP".to_string(), "P".to_string()) {
        Err(OpenError::Message(m)) => assert_eq!(m, "Unsupported file type: .zip"),
        _ => panic!("unsupported type accepted"),
    }
    match service.create_opening_project_from_binary(&mut ids, &mut openings, &mut events, vec![0xff, 0xfe], "txt".to_string(), "P".to_string()) {
        Err(OpenError::Message(m)) => assert!(m.starts_with("Invalid UTF-8: ")),
        _ => panic!("invalid text accepted"),
    }
    assert!(events.is_empty());
    let id = service
        .create_opening_project_from_binary(&mut ids, &mut openings, &mut events, SAMPLE.as_bytes().to_vec(), "LP".to_string(), "Book".to_string())
        .unwrap();
    assert!(service.is_opening_project(&openings, id));
    assert!(matches!(&events[0], DomainEvent::ParseLabelplusRequested(p, c) if *p == id && c == SAMPLE));
    assert!(matches!(&events[1], DomainEvent::OpeningProjectCreated(p, n) if *p == id && n == "Book"));
    match service.create_opening_project_from_binary(&mut ids, &mut openings, &mut events, vec![], "bf".to_string(), "  ".to_string()) {
        Err(OpenError::Core(CoreError::ValidationFailed { field, .. })) => assert_eq!(field, "project_name"),
        _ => panic!("blank name accepted"),
    }
}

#[test]
fn markers_are_added_listed_and_cleared() {
    let mut state = AppState::new();
    let img = add_image_from_binary_storage(&mut state.images, &mut state.image_ids, ImageFormat::Png, png_bytes(2, 2), None).unwrap();
    let service = MarkerService;
    let first = service
        .add_point_marker(&mut state.markers, &mut state.images, &mut state.marker_ids, img, 10f64.to_bits(), 20f64.to_bits(), None)
        .unwrap();
    let second = service
        .add_rectangle_marker(&mut state.markers, &mut state.images, &mut state.marker_ids, img, 1, 2, 3, 4, Some("t".to_string()))
        .unwrap();
    let listed = service.get_image_markers(&state.markers, img).unwrap();
    assert_eq!(listed.len(), 2);
    assert_eq!(listed[0].id, first);
    assert_eq!(listed[0].image_index, 1);
    assert_eq!(listed[1].id, second);
    assert_eq!(listed[1].image_index, 2);
    assert_eq!(listed[1].translation, "t");
    let dto = service.get_marker(&state.markers, second).unwrap();
    assert_eq!(dto.image_index, 2);
    assert!(service.get_marker(&state.markers, 999).is_none());
    let m = bubblefish_core::marker::Marker::from_dto(dto);
    assert!(matches!(m.geometry, MarkerGeometry::Rectangle { x: 1, y: 2, width: 3, height: 4 }));
    assert_eq!(ImageService.get_image_markers(&state.markers, img).len(), 2);

    let mut events: Vec<DomainEvent> = Vec::new();
    service.handle(&mut state.markers, &mut state.images, &mut state.bunny_cache, &mut events, &DomainEvent::ImageMarkersClearing(img));
    assert!(service.get_image_markers(&state.markers, img).unwrap().is_empty());
    assert!(matches!(&events[0], DomainEvent::ImageMarkersCleared(i, ms) if *i == img && ms.len() == 2));
    assert!(state.images.get(img).unwrap().marker_ids.is_empty());
}

#[test]
fn deleting_a_project_takes_its_pages_and_markers() {
    let mut state = AppState::new();
    let pid = create_project_storage(&mut state.projects, &mut state.project_ids, "P".to_string()).unwrap();
    let a = add_image_from_binary_storage(&mut state.images, &mut state.image_ids, ImageFormat::Png, png_bytes(1, 1), None).unwrap();
    let b = add_image_from_binary_storage(&mut state.images, &mut state.image_ids, ImageFormat::Png, png_bytes(1, 1), None).unwrap();
    let keep = add_image_from_binary_storage(&mut state.images, &mut state.image_ids, ImageFormat::Png, png_bytes(1, 1), None).unwrap();
    add_image_to_project_storage(&mut state.projects, pid, a).unwrap();
    add_image_to_project_storage(&mut state.projects, pid, b).unwrap();
    MarkerService.add_point_marker(&mut state.markers, &mut state.images, &mut state.marker_ids, a, 0, 0, None).unwrap();
    let mut events: Vec<DomainEvent> = Vec::new();
    ImageService.handle(&state.projects, &mut state.images, &mut state.markers, &mut events, &DomainEvent::ProjectDeleting(pid));
    assert!(state.images.get(a).is_none());
    assert!(state.images.get(b).is_none());
    assert!(state.images.get(keep).is_some());
    assert_eq!(state.markers.len(), 0);
    assert_eq!(events.len(), 5);
    assert!(matches!(&events[0], DomainEvent::ProjectImagesDeleting(p, ids) if *p == pid && *ids == vec![a, b]));
    assert!(matches!(&events[1], DomainEvent::ImageDeleted(i) if *i == a));
    assert!(matches!(&events[2], DomainEvent::ImageDeleted(i) if *i == a));
    assert!(matches!(&events[4], DomainEvent::ImageDeleted(i) if *i == b));
}

#[test]
fn image_bytes_come_from_memory_or_a_file() {
    let mut state = AppState::new();
    let a = add_image_from_binary_storage(&mut state.images, &mut state.image_ids, ImageFormat::Png, vec![1, 2, 3], None).unwrap();
    let service = ImageService::new();
    assert!(matches!(service.get_image_binary_data(&state.images, a), Ok(ImageBytes::Loaded(d)) if d == vec![1, 2, 3]));
    assert!(matches!(service.get_image_binary_data(&state.images, 77), Err(m) if m == "Image not found"));
    let shared = ImageData::SharedBuffer { format: ImageFormat::Png, buffer_id: 3 };
    assert!(matches!(service.get_image_data_for_display(&shared), Err(m) if m == "Cannot get binary data from shared buffer"));
    let file = ImageData::FilePath("/tmp/x.png".to_string());
    assert!(matches!(service.get_image_data_for_display(&file), Ok(ImageBytes::File(p)) if p == "/tmp/x.png"));
}

#[test]
fn imported_labelplus_markers_take_their_points() {
    let mut state = AppState::new();
    let pid = create_project_storage(&mut state.projects, &mut state.project_ids, "P".to_string()).unwrap();
    let a = add_image_from_binary_storage(&mut state.images, &mut state.image_ids, ImageFormat::Png, png_bytes(1, 1), Some("a.png".to_string())).unwrap();
    add_image_to_project_storage(&mut state.projects, pid, a).unwrap();
    let mut table: StrMap<u64> = StrMap::new();
    table.insert("0.5".to_string(), 50f64.to_bits());
    table.insert("0.25".to_string(), 25f64.to_bits());
    IOService::new().import_labelplus(&mut state, pid, SAMPLE, &table).unwrap();
    let ms = MarkerService.get_image_markers(&state.markers, a).unwrap();
    assert_eq!(ms.len(), 1);
    let m = bubblefish_core::marker::Marker::from_dto(MarkerService.get_marker(&state.markers, ms[0].id).unwrap());
    assert!(matches!(m.geometry, MarkerGeometry::Point { x, y } if x == 50f64.to_bits() && y == 25f64.to_bits()));
    assert_eq!(m.translation, "hello");
    assert!(IOService::new().import_labelplus(&mut state, 99, SAMPLE, &table).is_err());
}

#[test]
fn thumbnails_are_announced_in_base64() {
    let t = ThumbnailData { image_id: 4, data: b"abcd".to_vec(), format: ImageFormat::Jpeg, width: 200, height: 200 };
    let p = thumbnail_payload(&t);
    assert_eq!(p.data, "YWJjZA==");
    assert_eq!(p.image_id, 4);
    assert_eq!((p.width, p.height), (200, 200));
}

#[test]
fn short_jpeg_and_extreme_bmp_headers_are_flagged() {
    assert!(header_would_overflow(&[0xFF, 0xD8, 0, 0], &ImageFormat::Jpeg));
    assert!(!header_would_overflow(&[0xFF, 0xD8, 0, 0, 0, 0, 0, 0, 0, 0], &ImageFormat::Jpeg));
    assert!(!header_would_overflow(&png_bytes(1, 1), &ImageFormat::Png));
    let mut bmp = vec![0u8; 26];
    bmp[0] = b'B';
    bmp[1] = b'M';
    bmp[14] = 40;
    bmp[25] = 0x80;
    assert!(header_would_overflow(&bmp, &ImageFormat::Bmp));
    bmp[25] = 0x7f;
    assert!(!header_would_overflow(&bmp, &ImageFormat::Bmp));
}

#[test]
fn saved_project_imports_back() {
    let mut state = AppState::new();
    let pid = create_project_storage(&mut state.projects, &mut state.project_ids, "P".to_string()).unwrap();
    let a = add_image_from_binary_storage(&mut state.images, &mut state.image_ids, ImageFormat::Png, png_bytes(3, 3), Some("a.png".to_string())).unwrap();
    add_image_to_project_storage(&mut state.projects, pid, a).unwrap();
    let service = MarkerService;
    service.add_point_marker(&mut state.markers, &mut state.images, &mut state.marker_ids, a, 11, 12, Some("one".to_string())).unwrap();
    service.add_rectangle_marker(&mut state.markers, &mut state.images, &mut state.marker_ids, a, 1, 2, 3, 4, Some("two".to_string())).unwrap();
    let saved = bubblefish_core::bf::save_project(&state, pid).unwrap();
    assert_eq!(saved.markers.len(), 1);
    assert_eq!(saved.markers[0].len(), 2);

    let other = create_project_storage(&mut state.projects, &mut state.project_ids, "Q".to_string()).unwrap();
    let b = add_image_from_binary_storage(&mut state.images, &mut state.image_ids, ImageFormat::Png, png_bytes(3, 3), Some("a.png".to_string())).unwrap();
    add_image_to_project_storage(&mut state.projects, other, b).unwrap();
    bubblefish_core::bf::import_bf_data_direct(&mut state, other, saved).unwrap();
    let back = service.get_image_markers(&state.markers, b).unwrap();
    assert_eq!(back.len(), 2);
    let first = bubblefish_core::marker::Marker::from_dto(service.get_marker(&state.markers, back[0].id).unwrap());
    let second = bubblefish_core::marker::Marker::from_dto(service.get_marker(&state.markers, back[1].id).unwrap());
    assert!(matches!(first.geometry, MarkerGeometry::Point { x: 11, y: 12 }));
    assert_eq!(first.translation, "one");
    assert_eq!(first.image_index, 1);
    assert!(matches!(second.geometry, MarkerGeometry::Rectangle { x: 1, y: 2, width: 3, height: 4 }));
    assert_eq!(second.translation, "two");
    assert_eq!(second.image_index, 2);
}

#[test]
fn export_dates_are_rfc3339() {
    let d = bubblefish_core::bf::now_rfc3339();
    assert!(d.ends_with("+00:00"));
    assert_eq!(&d[4..5], "-");
    assert_eq!(&d[10..11], "T");
}

#[test]
fn project_text_must_be_utf8() {
    let pd = ProjectData::FilePath("x.txt".to_string());
    assert_eq!(pd.read_text(Ok(b"abc".to_vec())).unwrap(), "abc");
    match pd.read_text(Ok(vec![0xff])) {
        Err(CoreError::SerializationError(m)) => assert!(m.starts_with("Invalid UTF-8: ")),
        _ => panic!("invalid text accepted"),
    }
    assert!(matches!(pd.read_text(Err(CoreError::IoError("e".to_string()))), Err(CoreError::IoError(_))));
    let _ = ProjectFormat::Labelplus;
}

#[test]
fn an_image_reads_back_from_its_transfer_form() {
    let images = vec![
        Image {
            metadata: ImageMetadata {
                id: 4,
                name: Some("p.png".to_string()),
                width: Some(10),
                height: Some(20),
                format: Some(ImageFormat::Png),
                size: Some(3),
                checksum: Some("abc".to_string()),
            },
            data: ImageData::Binary { format: ImageFormat::Png, data: vec![1, 2, 3] },
            marker_ids: vec![5, 6],
        },
        Image {
            metadata: ImageMetadata {
                id: 9,
                name: None,
                width: None,
                height: None,
                format: None,
                size: None,
                checksum: None,
            },
            data: ImageData::SharedBuffer { format: ImageFormat::Webp, buffer_id: 12 },
            marker_ids: vec![],
        },
        Image {
            metadata: ImageMetadata {
                id: 1,
                name: Some("a.jpg".to_string()),
                width: None,
                height: None,
                format: Some(ImageFormat::Jpeg),
                size: None,
                checksum: None,
            },
            data: ImageData::FilePath("/tmp/a.jpg".to_string()),
            marker_ids: vec![2],
        },
    ];
    for img in images {
        let back = Image::from_dto(img.to_dto());
        assert_eq!(format!("{:?}", back), format!("{:?}", img));
    }
}
