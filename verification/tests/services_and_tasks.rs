use bubblefish_core::bunny_cache::BunnyCacheStorage;
use bubblefish_core::bunny_service::BunnyService;
use bubblefish_core::cancellation::CancellationManager;
use bubblefish_core::executor::{TaskExecutor, TaskNotice};
use bubblefish_core::plugin_manager::{BunnyPluginManager, OCRServiceInfo, TranslationServiceInfo};
use bubblefish_core::project::create_project_storage;
use bubblefish_core::project_service::ProjectService;
use bubblefish_core::ids::IdGenerator;
use bubblefish_core::queued_task::{BunnyTask, OCRModel, TaskStatus, TaskType, TranslationService};
use bubblefish_core::state::{AppState, ProjectStorage};
use bubblefish_core::strmap::StrMap;
use bubblefish_core::task_manager::{TaskManager, TaskStatus as ManagedStatus};
use bubblefish_core::task_queue::TaskQueueSystem;
use std::sync::atomic::{AtomicBool, AtomicU64, Ordering};
use std::sync::Arc;

fn ocr_info(id: &str, plugin: &str) -> OCRServiceInfo {
    OCRServiceInfo {
        id: id.to_string(),
        name: format!("{} service", id),
        plugin_id: plugin.to_string(),
        supported_languages: vec!["ja".to_string()],
        supported_image_formats: vec!["png".to_string()],
    }
}

fn translation_info(id: &str, plugin: &str) -> TranslationServiceInfo {
    TranslationServiceInfo {
        id: id.to_string(),
        name: format!("{} service", id),
        plugin_id: plugin.to_string(),
        source_languages: vec!["ja".to_string()],
        target_languages: vec!["zh".to_string()],
        supports_auto_detect: true,
    }
}

#[test]
fn registered_service_is_found_with_its_plugin() {
    let mut m = BunnyPluginManager::new();
    assert!(m.register_ocr_service(ocr_info("ocr1", "pluginA")).is_ok());
    let got = m.get_ocr_service("ocr1").unwrap();
    assert_eq!(got.plugin_id, "pluginA");
    assert_eq!(got.supported_languages, vec!["ja".to_string()]);
    assert_eq!(m.get_plugin_for_service("ocr1"), Some("pluginA".to_string()));
    assert!(m.get_ocr_service("nope").is_none());
}

#[test]
fn duplicate_registration_is_refused() {
    let mut m = BunnyPluginManager::new();
    m.register_ocr_service(ocr_info("ocr1", "pluginA")).unwrap();
    let e = m.register_ocr_service(ocr_info("ocr1", "pluginB")).unwrap_err();
    assert_eq!(e, "OCR service 'ocr1' already registered");
    assert_eq!(m.get_plugin_for_service("ocr1"), Some("pluginA".to_string()));
    m.register_translation_service(translation_info("tr1", "pluginA")).unwrap();
    let e = m.register_translation_service(translation_info("tr1", "pluginA")).unwrap_err();
    assert_eq!(e, "Translation service 'tr1' already registered");
}

#[test]
fn unregister_removes_service_and_route() {
    let mut m = BunnyPluginManager::new();
    m.register_translation_service(translation_info("tr1", "pluginA")).unwrap();
    assert!(m.unregister_service("tr1").is_ok());
    assert!(m.get_translation_service("tr1").is_none());
    assert!(m.get_plugin_for_service("tr1").is_none());
    assert_eq!(m.unregister_service("tr1").unwrap_err(), "Service 'tr1' not found");
}

#[test]
fn unregistering_a_plugin_removes_only_its_services() {
    let mut m = BunnyPluginManager::new();
    m.register_ocr_service(ocr_info("o1", "A")).unwrap();
    m.register_ocr_service(ocr_info("o2", "B")).unwrap();
    m.register_translation_service(translation_info("t1", "A")).unwrap();
    assert!(m.unregister_plugin_services("A").is_ok());
    let (ocr, tr) = m.list_all_services();
    assert_eq!(ocr.len(), 1);
    assert_eq!(ocr[0].id, "o2");
    assert!(tr.is_empty());
    assert_eq!(m.unregister_plugin_services("A").unwrap_err(), "No services found for plugin 'A'");
}

#[test]
fn plugin_requests_are_refused_without_plugin_support() {
    let mut m = BunnyPluginManager::new();
    assert_eq!(
        m.process_ocr_with_plugin("x", 1, vec![]).unwrap_err(),
        "No plugin found for service 'x'"
    );
    m.register_ocr_service(ocr_info("o1", "A")).unwrap();
    assert_eq!(
        m.process_ocr_with_plugin("o1", 1, vec![]).unwrap_err(),
        "Plugin OCR not supported in non-WASM environment"
    );
    assert_eq!(
        m.process_translation_with_plugin("o1", 1, "t".to_string(), None, "zh".to_string()).unwrap_err(),
        "Translation service 'o1' not found"
    );
}

#[test]
fn cancel_reports_whether_a_flag_exists() {
    let mut c = CancellationManager::new();
    assert!(!c.cancel("t1"));
    let token = c.create_token("t1".to_string());
    assert!(!token.load(Ordering::SeqCst));
    assert!(c.cancel("t1"));
    assert!(token.load(Ordering::SeqCst));
    c.clear_all();
    assert!(!c.cancel("t1"));
}

#[test]
fn task_manager_lifecycle() {
    let mut tm = TaskManager::new();
    let id = tm.create_task(5, 6, bubblefish_core::task_manager::TaskType::OCR, "svc".to_string()).unwrap();
    assert!(id.starts_with("bunny_task_"));
    assert!(id.ends_with("_5_OCR"));
    let t = tm.get_task(&id).unwrap().unwrap();
    assert_eq!(t.status, ManagedStatus::Queued);
    tm.start_task(&id).unwrap();
    assert_eq!(tm.get_task(&id).unwrap().unwrap().status, ManagedStatus::Processing);
    tm.fail_task(&id, "boom".to_string()).unwrap();
    let t = tm.get_task(&id).unwrap().unwrap();
    assert_eq!(t.status, ManagedStatus::Failed);
    assert_eq!(t.error, Some("boom".to_string()));
    assert_eq!(tm.complete_task("missing").unwrap_err(), "Task not found: missing");
}

#[test]
fn handled_recognition_completes_task_and_fills_cache() {
    let mut tasks = TaskManager::new();
    let mut cache = BunnyCacheStorage::new();
    let mut projects = ProjectStorage::new();
    let mut state = AppState::new();
    let pid = create_project_storage(&mut projects, &mut state.project_ids, "P".to_string()).unwrap();
    let svc = BunnyService::new();
    let req = svc
        .request_translation(&mut tasks, &projects, 3, 4, pid, "svc".to_string(), "text".to_string())
        .unwrap();
    assert_eq!(req.text, "text");
    assert_eq!(req.marker_id, 3);
    let e = svc.request_translation(&mut tasks, &projects, 3, 4, pid + 1, "svc".to_string(), "t".to_string());
    assert_eq!(e.unwrap_err(), "Project not found");
    svc.handle_ocr_completed(&mut tasks, &mut cache, req.task_id.clone(), 3, "こんにちは".to_string(), "m".to_string())
        .unwrap();
    assert_eq!(tasks.get_task(&req.task_id).unwrap().unwrap().status, ManagedStatus::Completed);
    let entry = cache.get(3).unwrap();
    assert_eq!(entry.original_text, Some("こんにちは".to_string()));
    assert_eq!(entry.last_ocr_model, Some("m".to_string()));
    let err = svc.handle_task_failed(&mut tasks, "nope".to_string(), "x".to_string()).unwrap_err();
    assert_eq!(err, "Task not found: nope");
}

#[test]
fn queue_runs_tasks_in_order_up_to_the_limit() {
    let mut q = TaskQueueSystem::new();
    let plugins = BunnyPluginManager::new();
    for n in 0..7u32 {
        let t = BunnyTask::new_ocr(format!("t{}", n), n, 1, OCRModel::Default);
        q.enqueue_task(t).unwrap();
    }
    q.schedule_ocr_tasks(&plugins);
    for n in 0..5u32 {
        let t = q.get_task_status(&format!("t{}", n)).unwrap();
        assert_eq!(t.status, TaskStatus::Completed);
        assert_eq!(t.result, Some(String::new()));
    }
    assert_eq!(q.get_task_status("t5").unwrap().status, TaskStatus::Queued);
    assert_eq!(q.get_queued_tasks(None).len(), 2);
    q.cleanup_completed_tasks();
    q.schedule_ocr_tasks(&plugins);
    assert_eq!(q.get_task_status("t6").unwrap().status, TaskStatus::Completed);
    assert_eq!(q.get_queued_tasks(None).len(), 0);
    assert_eq!(q.get_all_tasks().len(), 7);
}

#[test]
fn scheduled_tasks_are_announced_in_queue_order() {
    let mut q = TaskQueueSystem::new();
    let plugins = BunnyPluginManager::new();
    for n in 0..7u32 {
        q.enqueue_task(BunnyTask::new_ocr(format!("t{}", n), n, 1, OCRModel::Default)).unwrap();
    }
    q.schedule_ocr_tasks(&plugins);
    let notices = q.take_notices();
    assert_eq!(notices.len(), 5);
    for (n, notice) in notices.iter().enumerate() {
        match notice {
            TaskNotice::OcrCompleted { task_id, marker_id, text, .. } => {
                assert_eq!(*task_id, format!("t{}", n));
                assert_eq!(*marker_id as usize, n);
                assert!(text.is_empty());
            },
            _ => panic!("expected a completion"),
        }
    }
    assert!(q.take_notices().is_empty());
}

#[test]
fn cancelling_a_waiting_task_takes_it_off_the_queue() {
    let mut q = TaskQueueSystem::new();
    let plugins = BunnyPluginManager::new();
    let t = BunnyTask::new_translation(
        "tr".to_string(),
        1,
        1,
        TranslationService::DeepL,
        None,
        "zh-CN".to_string(),
    );
    assert_eq!(t.task_type, TaskType::Translation);
    q.enqueue_task(t).unwrap();
    q.cancel_task("tr").unwrap();
    assert_eq!(q.get_task_status("tr").unwrap().status, TaskStatus::Cancelled);
    assert_eq!(q.cancel_task("tr").unwrap_err(), "Task is not cancellable");
    assert_eq!(q.cancel_task("zz").unwrap_err(), "Task not found");
    q.schedule_translation_tasks(&plugins);
    assert_eq!(q.get_task_status("tr").unwrap().status, TaskStatus::Cancelled);
    q.clear_all_tasks().unwrap();
    q.shutdown();
}

#[test]
fn raised_flag_cancels_a_task_when_it_runs() {
    let plugins = BunnyPluginManager::new();
    let mut all: StrMap<BunnyTask> = StrMap::new();
    let t = BunnyTask::new_ocr("x".to_string(), 1, 1, OCRModel::Tesseract);
    let flag = Arc::new(AtomicBool::new(true));
    let progress = Arc::new(AtomicU64::new(0));
    let mut notices: Vec<TaskNotice> = Vec::new();
    TaskExecutor::new().execute_task(t, flag, progress.clone(), &mut all, &plugins, &mut notices);
    let done = all.get("x").unwrap();
    assert_eq!(done.status, TaskStatus::Cancelled);
    assert!(done.completed_at.is_some());
    assert_eq!(progress.load(Ordering::SeqCst), 0);
    assert_eq!(notices.len(), 1);
    assert!(matches!(&notices[0], TaskNotice::Cancelled { task_id, marker_id: 1, .. } if task_id == "x"));
}

#[test]
fn a_translation_that_runs_completes_and_is_announced() {
    let plugins = BunnyPluginManager::new();
    let mut all: StrMap<BunnyTask> = StrMap::new();
    let t = BunnyTask::new_translation("y".to_string(), 2, 1, TranslationService::Google, None, "en".to_string());
    let flag = Arc::new(AtomicBool::new(false));
    let progress = Arc::new(AtomicU64::new(0));
    let mut notices: Vec<TaskNotice> = Vec::new();
    TaskExecutor::new().execute_task(t, flag, progress.clone(), &mut all, &plugins, &mut notices);
    let done = all.get("y").unwrap();
    assert_eq!(done.status, TaskStatus::Completed);
    assert_eq!(done.result.as_deref(), Some(""));
    assert_eq!(progress.load(Ordering::SeqCst), 100);
    assert!(matches!(&notices[0], TaskNotice::TranslationCompleted { task_id, translation, .. } if task_id == "y" && translation.is_empty()));
}

#[test]
fn each_created_project_adds_one_to_the_count() {
    let svc = ProjectService::new();
    let mut projects = ProjectStorage::new();
    let mut ids = IdGenerator::new();
    assert_eq!(svc.project_count(&projects).unwrap(), 0);
    let a = svc.create_project(&mut projects, &mut ids, "A".to_string()).unwrap();
    assert_eq!(svc.project_count(&projects).unwrap(), 1);
    let b = svc.create_project(&mut projects, &mut ids, "B".to_string()).unwrap();
    assert_ne!(a, b);
    assert_eq!(svc.project_count(&projects).unwrap(), 2);
}
