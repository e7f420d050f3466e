use vstd::prelude::*;
use std::sync::Arc;
use std::sync::atomic::{AtomicBool, AtomicU64, Ordering};
use crate::clock::get_timestamp_millis;
use crate::plugin_manager::{BunnyPluginManager, quoted_message};
use crate::queued_task::{BunnyTask, OCRModel, QueuedTaskView, TaskStatus, TaskType, TranslationService};
use crate::strmap::StrMap;
use crate::text::{push_str, string_from_chars, string_of};
use crate::ids::MarkerId;

verus! {

/// The name of a recognition engine, as its service is registered.
pub open spec fn model_name(m: OCRModel) -> Seq<char> {
    match m {
        OCRModel::Default => "Default"@,
        OCRModel::Tesseract => "Tesseract"@,
        OCRModel::PaddleOCR => "PaddleOCR"@,
        OCRModel::EasyOCR => "EasyOCR"@,
    }
}

/// The name of a translation engine, as its service is registered.
pub open spec fn service_name(s: TranslationService) -> Seq<char> {
    match s {
        TranslationService::Default => "Default"@,
        TranslationService::Google => "Google"@,
        TranslationService::DeepL => "DeepL"@,
        TranslationService::ChatGPT => "ChatGPT"@,
        TranslationService::Baidu => "Baidu"@,
    }
}

fn model_name_string(m: OCRModel) -> (r: String)
    ensures
        r@ == model_name(m),
{
    match m {
        OCRModel::Default => string_of("Default"),
        OCRModel::Tesseract => string_of("Tesseract"),
        OCRModel::PaddleOCR => string_of("PaddleOCR"),
        OCRModel::EasyOCR => string_of("EasyOCR"),
    }
}

fn service_name_string(s: TranslationService) -> (r: String)
    ensures
        r@ == service_name(s),
{
    match s {
        TranslationService::Default => string_of("Default"),
        TranslationService::Google => string_of("Google"),
        TranslationService::DeepL => string_of("DeepL"),
        TranslationService::ChatGPT => string_of("ChatGPT"),
        TranslationService::Baidu => string_of("Baidu"),
    }
}

/// The task after cancellation: cancelled, with a completion time.
pub open spec fn cancelled_task(old_t: QueuedTaskView, t: QueuedTaskView) -> bool {
    &&& t.completed_at is Some
    &&& t == QueuedTaskView { status: TaskStatus::Cancelled, completed_at: t.completed_at, ..old_t }
}

/// The task after completion with `result`, with a completion time.
pub open spec fn completed_task(old_t: QueuedTaskView, t: QueuedTaskView, result: Seq<char>) -> bool {
    &&& t.completed_at is Some
    &&& t == QueuedTaskView {
        status: TaskStatus::Completed,
        result: Some(result),
        completed_at: t.completed_at,
        ..old_t
    }
}

/// The task when it starts running: processing, with a start time.
pub open spec fn running_task(old_t: QueuedTaskView, t: QueuedTaskView) -> bool {
    &&& t.started_at is Some
    &&& t == QueuedTaskView { status: TaskStatus::Processing, started_at: t.started_at, ..old_t }
}

/// What the front end is told when a machine task ends.
#[derive(Debug)]
pub enum TaskNotice {
    /// The task was cancelled (`bunny:task_cancelled`).
    Cancelled { task_id: String, marker_id: MarkerId, task_type: TaskType, status: TaskStatus },
    /// Recognition finished with `text` (`bunny:ocr_completed`).
    OcrCompleted { task_id: String, marker_id: MarkerId, text: String, model: Option<OCRModel> },
    /// Translation finished with `translation` (`bunny:translation_completed`).
    TranslationCompleted {
        task_id: String,
        marker_id: MarkerId,
        translation: String,
        service: Option<TranslationService>,
    },
}

/// The abstract value of a task notice.
pub enum TaskNoticeView {
    Cancelled { task_id: Seq<char>, marker_id: MarkerId, task_type: TaskType, status: TaskStatus },
    OcrCompleted { task_id: Seq<char>, marker_id: MarkerId, text: Seq<char>, model: Option<OCRModel> },
    TranslationCompleted {
        task_id: Seq<char>,
        marker_id: MarkerId,
        translation: Seq<char>,
        service: Option<TranslationService>,
    },
}

impl View for TaskNotice {
    type V = TaskNoticeView;

    open spec fn view(&self) -> TaskNoticeView {
        match self {
            TaskNotice::Cancelled { task_id, marker_id, task_type, status } => TaskNoticeView::Cancelled {
                task_id: task_id@,
                marker_id: *marker_id,
                task_type: *task_type,
                status: *status,
            },
            TaskNotice::OcrCompleted { task_id, marker_id, text, model } => TaskNoticeView::OcrCompleted {
                task_id: task_id@,
                marker_id: *marker_id,
                text: text@,
                model: *model,
            },
            TaskNotice::TranslationCompleted { task_id, marker_id, translation, service } =>
                TaskNoticeView::TranslationCompleted {
                task_id: task_id@,
                marker_id: *marker_id,
                translation: translation@,
                service: *service,
            },
        }
    }
}

/// The views of a list of notices.
pub open spec fn notice_list(v: Seq<TaskNotice>) -> Seq<TaskNoticeView> {
    v.map_values(|n: TaskNotice| n@)
}

/// The notice for a task that has ended as `t`: cancelled, or completed
/// with its result (by the task's kind).
pub open spec fn outcome_notice(t: QueuedTaskView) -> TaskNoticeView {
    if t.status == TaskStatus::Cancelled {
        TaskNoticeView::Cancelled { task_id: t.id, marker_id: t.marker_id, task_type: t.task_type, status: t.status }
    } else {
        let result = match t.result {
            Some(r) => r,
            None => Seq::empty(),
        };
        match t.task_type {
            TaskType::OCR => TaskNoticeView::OcrCompleted {
                task_id: t.id,
                marker_id: t.marker_id,
                text: result,
                model: t.model,
            },
            TaskType::Translation => TaskNoticeView::TranslationCompleted {
                task_id: t.id,
                marker_id: t.marker_id,
                translation: result,
                service: t.service,
            },
        }
    }
}

/// The notice for a task that has ended.
fn notice_for(t: &BunnyTask) -> (n: TaskNotice)
    ensures
        n@ == outcome_notice(t@),
{
    if t.status == TaskStatus::Cancelled {
        TaskNotice::Cancelled { task_id: t.id.clone(), marker_id: t.marker_id, task_type: t.task_type, status: t.status }
    } else {
        let result = match &t.result {
            Some(r) => r.clone(),
            None => String::new(),
        };
        proof {
            reveal_strlit("");
        }
        match t.task_type {
            TaskType::OCR => TaskNotice::OcrCompleted {
                task_id: t.id.clone(),
                marker_id: t.marker_id,
                text: result,
                model: t.model,
            },
            TaskType::Translation => TaskNotice::TranslationCompleted {
                task_id: t.id.clone(),
                marker_id: t.marker_id,
                translation: result,
                service: t.service,
            },
        }
    }
}

/// Runs queued machine tasks. Plugins do the actual work; this build has no
/// route to them, so a task completes with an empty result.
pub struct TaskExecutor;

impl TaskExecutor {
    /// An executor.
    pub fn new() -> (e: Self) {
        TaskExecutor
    }

    /// The outcome of an OCR task: cancelled if its flag was raised, else
    /// completed with the text the plugin of its engine gave (empty for the
    /// default engine, or when the plugin cannot be reached).
    pub fn ocr_outcome(mut task: BunnyTask, cancelled: bool, plugins: &BunnyPluginManager) -> (t: BunnyTask)
        requires
            plugins.wf(),
        ensures
            cancelled ==> cancelled_task(task@, t@),
            !cancelled ==> completed_task(task@, t@, ""@),
    {
        if cancelled {
            task.status = TaskStatus::Cancelled;
            task.completed_at = Some(get_timestamp_millis());
            return task;
        }
        let result = match task.model {
            Some(model) => {
                if model != OCRModel::Default {
                    let name = model_name_string(model);
                    let image_data: Vec<u8> = Vec::new();
                    match plugins.process_ocr_with_plugin(name.as_str(), task.marker_id, image_data) {
                        Ok(_) => quoted_text("[OCR processing via plugin ", name.as_str(), "]"),
                        Err(_) => String::new(),
                    }
                } else {
                    String::new()
                }
            },
            None => String::new(),
        };
        proof {
            reveal_strlit("");
        }
        assert(result@ =~= ""@);
        task.status = TaskStatus::Completed;
        task.result = Some(result);
        task.completed_at = Some(get_timestamp_millis());
        task
    }

    /// The outcome of a translation task: cancelled if its flag was raised,
    /// else completed with the text the plugin of its engine gave (empty for
    /// the default engine, or when the plugin cannot be reached).
    pub fn translation_outcome(mut task: BunnyTask, cancelled: bool, plugins: &BunnyPluginManager) -> (t: BunnyTask)
        requires
            plugins.wf(),
        ensures
            cancelled ==> cancelled_task(task@, t@),
            !cancelled ==> completed_task(task@, t@, ""@),
    {
        if cancelled {
            task.status = TaskStatus::Cancelled;
            task.completed_at = Some(get_timestamp_millis());
            return task;
        }
        let result = match task.service {
            Some(service) => {
                if service != TranslationService::Default {
                    let name = service_name_string(service);
                    let text = string_of("Sample text to translate");
                    let target = match &task.target_lang {
                        Some(t) => t.clone(),
                        None => string_of("zh-CN"),
                    };
                    let source = match &task.source_lang {
                        Some(s) => Some(s.clone()),
                        None => None,
                    };
                    match plugins.process_translation_with_plugin(name.as_str(), task.marker_id, text, source, target) {
                        Ok(_) => quoted_text("[Translation processing via plugin ", name.as_str(), "]"),
                        Err(_) => String::new(),
                    }
                } else {
                    String::new()
                }
            },
            None => String::new(),
        };
        proof {
            reveal_strlit("");
        }
        assert(result@ =~= ""@);
        task.status = TaskStatus::Completed;
        task.result = Some(result);
        task.completed_at = Some(get_timestamp_millis());
        task
    }

    /// Runs an OCR task: reads its cancellation flag, records the outcome
    /// (see `ocr_outcome`) under the task's identifier, on completion sets
    /// the progress to 100, and adds the notice of the outcome.
    pub fn process_ocr_task(
        task: BunnyTask,
        cancellation_token: Arc<AtomicBool>,
        progress: Arc<AtomicU64>,
        all_tasks: &mut StrMap<BunnyTask>,
        plugins: &BunnyPluginManager,
        notices: &mut Vec<TaskNotice>,
    )
        requires
            old(all_tasks).wf(),
            plugins.wf(),
        ensures
            final(all_tasks).wf(),
            notice_list(final(notices)@) == notice_list(old(notices)@).push(
                outcome_notice(final(all_tasks).map()[task@.id]),
            ),
            final(all_tasks).map().dom() == old(all_tasks).map().dom().insert(task@.id),
            forall|k: Seq<char>| #[trigger]
                old(all_tasks).map().contains_key(k) && k != task@.id ==> final(all_tasks).map()[k] == old(
                    all_tasks,
                ).map()[k],
            cancelled_task(task@, final(all_tasks).map()[task@.id]) || completed_task(
                task@,
                final(all_tasks).map()[task@.id],
                ""@,
            ),
    {
        let cancelled = cancellation_token.load(Ordering::SeqCst);
        let id = task.id.clone();
        let t = Self::ocr_outcome(task, cancelled, plugins);
        if !cancelled {
            progress.store(100, Ordering::SeqCst);
        }
        let notice = notice_for(&t);
        all_tasks.insert(id, t);
        let ghost before = notice_list(notices@);
        notices.push(notice);
        assert(notice_list(notices@) =~= before.push(notice@));
        assert(all_tasks.map().dom() =~= old(all_tasks).map().dom().insert(task@.id));
    }

    /// Runs a translation task: reads its cancellation flag, records the
    /// outcome (see `translation_outcome`) under the task's identifier, on
    /// completion sets the progress to 100, and adds the notice of the
    /// outcome.
    pub fn process_translation_task(
        task: BunnyTask,
        cancellation_token: Arc<AtomicBool>,
        progress: Arc<AtomicU64>,
        all_tasks: &mut StrMap<BunnyTask>,
        plugins: &BunnyPluginManager,
        notices: &mut Vec<TaskNotice>,
    )
        requires
            old(all_tasks).wf(),
            plugins.wf(),
        ensures
            final(all_tasks).wf(),
            notice_list(final(notices)@) == notice_list(old(notices)@).push(
                outcome_notice(final(all_tasks).map()[task@.id]),
            ),
            final(all_tasks).map().dom() == old(all_tasks).map().dom().insert(task@.id),
            forall|k: Seq<char>| #[trigger]
                old(all_tasks).map().contains_key(k) && k != task@.id ==> final(all_tasks).map()[k] == old(
                    all_tasks,
                ).map()[k],
            cancelled_task(task@, final(all_tasks).map()[task@.id]) || completed_task(
                task@,
                final(all_tasks).map()[task@.id],
                ""@,
            ),
    {
        let cancelled = cancellation_token.load(Ordering::SeqCst);
        let id = task.id.clone();
        let t = Self::translation_outcome(task, cancelled, plugins);
        if !cancelled {
            progress.store(100, Ordering::SeqCst);
        }
        let notice = notice_for(&t);
        all_tasks.insert(id, t);
        let ghost before = notice_list(notices@);
        notices.push(notice);
        assert(notice_list(notices@) =~= before.push(notice@));
        assert(all_tasks.map().dom() =~= old(all_tasks).map().dom().insert(task@.id));
    }

    /// Starts a task (processing, with a start time) and runs it by its type.
    pub fn execute_task(
        &self,
        mut task: BunnyTask,
        cancellation_token: Arc<AtomicBool>,
        progress: Arc<AtomicU64>,
        all_tasks: &mut StrMap<BunnyTask>,
        plugins: &BunnyPluginManager,
        notices: &mut Vec<TaskNotice>,
    )
        requires
            old(all_tasks).wf(),
            plugins.wf(),
        ensures
            final(all_tasks).wf(),
            notice_list(final(notices)@) == notice_list(old(notices)@).push(
                outcome_notice(final(all_tasks).map()[task@.id]),
            ),
            final(all_tasks).map().dom() == old(all_tasks).map().dom().insert(task@.id),
            forall|k: Seq<char>| #[trigger]
                old(all_tasks).map().contains_key(k) && k != task@.id ==> final(all_tasks).map()[k] == old(
                    all_tasks,
                ).map()[k],
            exists|s: QueuedTaskView|
                running_task(task@, s) && (cancelled_task(s, #[trigger] final(all_tasks).map()[task@.id])
                    || completed_task(s, final(all_tasks).map()[task@.id], ""@)),
    {
        let ghost original = task@;
        task.status = TaskStatus::Processing;
        task.started_at = Some(get_timestamp_millis());
        let ghost started = task@;
        match task.task_type {
            TaskType::OCR => Self::process_ocr_task(task, cancellation_token, progress, all_tasks, plugins, notices),
            TaskType::Translation => Self::process_translation_task(
                task,
                cancellation_token,
                progress,
                all_tasks,
                plugins,
                notices,
            ),
        }
        assert(running_task(original, started));
    }
}

/// Builds `prefix'name'suffix`.
fn quoted_text(prefix: &str, name: &str, suffix: &str) -> (r: String)
    ensures
        r@ == quoted_message(prefix@, name@, suffix@),
{
    let mut out: Vec<char> = Vec::new();
    push_str(&mut out, prefix);
    push_str(&mut out, "'");
    push_str(&mut out, name);
    push_str(&mut out, "'");
    push_str(&mut out, suffix);
    assert(out@ =~= quoted_message(prefix@, name@, suffix@));
    string_from_chars(&out)
}

} // verus!
