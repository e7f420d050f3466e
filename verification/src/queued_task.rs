use vstd::prelude::*;
use std::sync::Arc;
use std::sync::atomic::{AtomicBool, AtomicU64};
use crate::ids::{ImageId, MarkerId};
use crate::clock::get_timestamp_millis;
use crate::project::{opt_str_view, clone_opt_string};

verus! {

/// Recognition engines a queued OCR task may ask for.
#[derive(Debug, Clone, Copy, PartialEq, Eq, Structural)]
pub enum OCRModel {
    Default,
    Tesseract,
    PaddleOCR,
    EasyOCR,
}

/// Translation engines a queued translation task may ask for.
#[derive(Debug, Clone, Copy, PartialEq, Eq, Structural)]
pub enum TranslationService {
    Default,
    Google,
    DeepL,
    ChatGPT,
    Baidu,
}

/// What a queued task does.
#[derive(Debug, Clone, Copy, PartialEq, Eq, Structural)]
pub enum TaskType {
    OCR,
    Translation,
}

/// Progress of a queued task.
#[derive(Debug, Clone, Copy, PartialEq, Eq, Structural)]
pub enum TaskStatus {
    Queued,
    Processing,
    Completed,
    Failed,
    Cancelled,
}

/// A task of the processing queue.
#[derive(Debug)]
pub struct BunnyTask {
    pub id: String,
    pub marker_id: MarkerId,
    pub image_id: ImageId,
    pub task_type: TaskType,
    pub status: TaskStatus,
    pub model: Option<OCRModel>,
    pub service: Option<TranslationService>,
    pub source_lang: Option<String>,
    pub target_lang: Option<String>,
    pub result: Option<String>,
    pub error: Option<String>,
    pub progress: Option<u8>,
    pub created_at: u64,
    pub started_at: Option<u64>,
    pub completed_at: Option<u64>,
}

/// The abstract value of a queued task.
pub struct QueuedTaskView {
    pub id: Seq<char>,
    pub marker_id: MarkerId,
    pub image_id: ImageId,
    pub task_type: TaskType,
    pub status: TaskStatus,
    pub model: Option<OCRModel>,
    pub service: Option<TranslationService>,
    pub source_lang: Option<Seq<char>>,
    pub target_lang: Option<Seq<char>>,
    pub result: Option<Seq<char>>,
    pub error: Option<Seq<char>>,
    pub progress: Option<u8>,
    pub created_at: u64,
    pub started_at: Option<u64>,
    pub completed_at: Option<u64>,
}

impl View for BunnyTask {
    type V = QueuedTaskView;

    open spec fn view(&self) -> QueuedTaskView {
        QueuedTaskView {
            id: self.id@,
            marker_id: self.marker_id,
            image_id: self.image_id,
            task_type: self.task_type,
            status: self.status,
            model: self.model,
            service: self.service,
            source_lang: opt_str_view(self.source_lang),
            target_lang: opt_str_view(self.target_lang),
            result: opt_str_view(self.result),
            error: opt_str_view(self.error),
            progress: self.progress,
            created_at: self.created_at,
            started_at: self.started_at,
            completed_at: self.completed_at,
        }
    }
}

impl Clone for BunnyTask {
    fn clone(&self) -> (r: Self)
        ensures
            r@ == self@,
    {
        BunnyTask {
            id: self.id.clone(),
            marker_id: self.marker_id,
            image_id: self.image_id,
            task_type: self.task_type,
            status: self.status,
            model: self.model,
            service: self.service,
            source_lang: clone_opt_string(&self.source_lang),
            target_lang: clone_opt_string(&self.target_lang),
            result: clone_opt_string(&self.result),
            error: clone_opt_string(&self.error),
            progress: self.progress,
            created_at: self.created_at,
            started_at: self.started_at,
            completed_at: self.completed_at,
        }
    }
}

/// A freshly queued task: no result, error, progress or start and end times.
pub open spec fn freshly_queued(t: QueuedTaskView) -> bool {
    &&& t.status == TaskStatus::Queued
    &&& t.result is None
    &&& t.error is None
    &&& t.progress is None
    &&& t.started_at is None
    &&& t.completed_at is None
}

impl BunnyTask {
    /// A queued OCR task for a marker, with the engine to use.
    pub fn new_ocr(id: String, marker_id: MarkerId, image_id: ImageId, model: OCRModel) -> (t: Self)
        ensures
            freshly_queued(t@),
            t@.id == id@,
            t@.marker_id == marker_id,
            t@.image_id == image_id,
            t@.task_type == TaskType::OCR,
            t@.model == Some(model),
            t@.service is None,
            t@.source_lang is None,
            t@.target_lang is None,
    {
        BunnyTask {
            id,
            marker_id,
            image_id,
            task_type: TaskType::OCR,
            status: TaskStatus::Queued,
            model: Some(model),
            service: None,
            source_lang: None,
            target_lang: None,
            result: None,
            error: None,
            progress: None,
            created_at: get_timestamp_millis(),
            started_at: None,
            completed_at: None,
        }
    }

    /// A queued translation task for a marker, with the engine and languages.
    pub fn new_translation(
        id: String,
        marker_id: MarkerId,
        image_id: ImageId,
        service: TranslationService,
        source_lang: Option<String>,
        target_lang: String,
    ) -> (t: Self)
        ensures
            freshly_queued(t@),
            t@.id == id@,
            t@.marker_id == marker_id,
            t@.image_id == image_id,
            t@.task_type == TaskType::Translation,
            t@.model is None,
            t@.service == Some(service),
            t@.source_lang == opt_str_view(source_lang),
            t@.target_lang == Some(target_lang@),
    {
        BunnyTask {
            id,
            marker_id,
            image_id,
            task_type: TaskType::Translation,
            status: TaskStatus::Queued,
            model: None,
            service: Some(service),
            source_lang,
            target_lang: Some(target_lang),
            result: None,
            error: None,
            progress: None,
            created_at: get_timestamp_millis(),
            started_at: None,
            completed_at: None,
        }
    }
}

/// A task waiting in the queue, with its cancellation flag.
pub struct QueuedTask {
    pub task: BunnyTask,
    pub cancellation_token: Arc<AtomicBool>,
}

/// A task being processed, with its cancellation flag and progress counter.
pub struct ActiveTask {
    pub task: BunnyTask,
    pub cancellation_token: Arc<AtomicBool>,
    pub progress: Arc<AtomicU64>,
}

impl View for ActiveTask {
    type V = QueuedTaskView;

    open spec fn view(&self) -> QueuedTaskView {
        self.task@
    }
}

} // verus!
