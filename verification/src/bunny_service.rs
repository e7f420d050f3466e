use vstd::prelude::*;
use crate::ids::{ImageId, MarkerId, ProjectId};
use crate::language::Language;
use crate::marker::MarkerGeometry;
use crate::state::{MarkerStorage, ProjectStorage};
use crate::bunny_cache::{
    BunnyCacheStorage,
    BunnyCacheView,
    entry_or_empty,
    update_machine_translation_storage,
    update_original_text_storage,
};
use crate::task_manager::{
    BunnyTaskView,
    TaskManager,
    TaskType,
    completed,
    failed,
    is_new_task,
    task_id_text,
    task_not_found,
};
use crate::text::string_of;

verus! {

/// What the front end is to hand a plugin to recognise a marker's text.
#[derive(Debug)]
pub struct PluginOcrRequest {
    pub task_id: String,
    pub marker_id: MarkerId,
    pub cropped_image_data: Vec<u8>,
    pub service_id: String,
    pub source_language: Language,
}

/// What the front end is to hand a plugin to translate a marker's text.
#[derive(Debug)]
pub struct PluginTranslationRequest {
    pub task_id: String,
    pub marker_id: MarkerId,
    pub image_id: ImageId,
    pub service_id: String,
    pub text: String,
    pub source_language: Language,
    pub target_language: Language,
}

/// The region of a page to recognise, from a marker's geometry: its corner
/// and, for a rectangle, its size (coordinates as `f64` bit patterns).
#[derive(Debug, Clone, Copy)]
pub struct CropRegion {
    pub x: u64,
    pub y: u64,
    pub width: Option<u64>,
    pub height: Option<u64>,
}

/// The region a geometry covers.
pub open spec fn crop_region_of(g: MarkerGeometry) -> CropRegion {
    match g {
        MarkerGeometry::Point { x, y } => CropRegion { x, y, width: None, height: None },
        MarkerGeometry::Rectangle { x, y, width, height } => CropRegion {
            x,
            y,
            width: Some(width),
            height: Some(height),
        },
    }
}

/// Requests recognition and translation of marker text from plugins, and
/// records what they answer.
pub struct BunnyService;

/// The manager after a task was created: one more task, under an identifier
/// made of a clock reading, the marker and the type; the others unchanged.
pub open spec fn task_created(
    old_m: Map<Seq<char>, BunnyTaskView>,
    new_m: Map<Seq<char>, BunnyTaskView>,
    task_id: Seq<char>,
    marker_id: MarkerId,
    image_id: ImageId,
    task_type: TaskType,
    service_id: Seq<char>,
) -> bool {
    &&& exists|ts: u64| task_id == task_id_text(ts, marker_id, task_type)
    &&& new_m.dom() == old_m.dom().insert(task_id)
    &&& forall|k: Seq<char>| #[trigger] old_m.contains_key(k) && k != task_id ==> new_m[k] == old_m[k]
    &&& is_new_task(new_m[task_id], task_id, marker_id, image_id, task_type, service_id)
}

impl BunnyService {
    /// The service.
    pub fn new() -> (s: Self) {
        BunnyService
    }

    /// The region of the page a marker's text is to be recognised from;
    /// refused for an unknown project or marker.
    pub fn ocr_crop_region(
        &self,
        projects: &ProjectStorage,
        markers: &MarkerStorage,
        marker_id: MarkerId,
        project_id: ProjectId,
    ) -> (r: Result<CropRegion, String>)
        ensures
            !projects@.contains_key(project_id) ==> (r matches Err(e) && e@ == "Project not found"@),
            projects@.contains_key(project_id) && !markers@.markers.contains_key(marker_id) ==> (r matches Err(e)
                && e@ == "Marker not found"@),
            projects@.contains_key(project_id) && markers@.markers.contains_key(marker_id) ==> r == Ok::<
                CropRegion,
                String,
            >(crop_region_of(markers@.markers[marker_id].geometry)),
    {
        if !projects.contains(project_id) {
            return Err(string_of("Project not found"));
        }
        match markers.get(marker_id) {
            Some(m) => Ok(
                match m.geometry {
                    MarkerGeometry::Point { x, y } => CropRegion { x, y, width: None, height: None },
                    MarkerGeometry::Rectangle { x, y, width, height } => CropRegion {
                        x,
                        y,
                        width: Some(width),
                        height: Some(height),
                    },
                },
            ),
            None => Err(string_of("Marker not found")),
        }
    }

    /// Requests recognition of a marker's text from the region cropped out of
    /// its page: refused for an unknown project; otherwise a task is created
    /// and the request for the plugin is returned.
    pub fn request_ocr(
        &self,
        tasks: &mut TaskManager,
        projects: &ProjectStorage,
        marker_id: MarkerId,
        image_id: ImageId,
        project_id: ProjectId,
        service_id: String,
        cropped_image_data: Vec<u8>,
    ) -> (r: Result<PluginOcrRequest, String>)
        requires
            old(tasks).wf(),
        ensures
            final(tasks).wf(),
            !projects@.contains_key(project_id) ==> (r matches Err(e) && e@ == "Project not found"@)
                && final(tasks)@ == old(tasks)@,
            projects@.contains_key(project_id) ==> (r matches Ok(req) && {
                &&& task_created(
                    old(tasks)@,
                    final(tasks)@,
                    req.task_id@,
                    marker_id,
                    image_id,
                    TaskType::OCR,
                    service_id@,
                )
                &&& req.marker_id == marker_id
                &&& req.cropped_image_data@ == cropped_image_data@
                &&& req.service_id@ == service_id@
                &&& req.source_language == projects@[project_id].source_language
            }),
    {
        let source_language = match projects.get(project_id) {
            Some(p) => p.source_language,
            None => {
                return Err(string_of("Project not found"));
            },
        };
        let task_id = match tasks.create_task(marker_id, image_id, TaskType::OCR, service_id.clone()) {
            Ok(id) => id,
            Err(e) => {
                return Err(e);
            },
        };
        Ok(PluginOcrRequest { task_id, marker_id, cropped_image_data, service_id, source_language })
    }

    /// Requests translation of a marker's text: refused for an unknown
    /// project; otherwise a task is created and the request for the plugin
    /// is returned, with the project's languages.
    pub fn request_translation(
        &self,
        tasks: &mut TaskManager,
        projects: &ProjectStorage,
        marker_id: MarkerId,
        image_id: ImageId,
        project_id: ProjectId,
        service_id: String,
        text: String,
    ) -> (r: Result<PluginTranslationRequest, String>)
        requires
            old(tasks).wf(),
        ensures
            final(tasks).wf(),
            !projects@.contains_key(project_id) ==> (r matches Err(e) && e@ == "Project not found"@)
                && final(tasks)@ == old(tasks)@,
            projects@.contains_key(project_id) ==> (r matches Ok(req) && {
                &&& task_created(
                    old(tasks)@,
                    final(tasks)@,
                    req.task_id@,
                    marker_id,
                    image_id,
                    TaskType::Translation,
                    service_id@,
                )
                &&& req.marker_id == marker_id
                &&& req.image_id == image_id
                &&& req.service_id@ == service_id@
                &&& req.text@ == text@
                &&& req.source_language == projects@[project_id].source_language
                &&& req.target_language == projects@[project_id].target_language
            }),
    {
        let (source_language, target_language) = match projects.get(project_id) {
            Some(p) => (p.source_language, p.target_language),
            None => {
                return Err(string_of("Project not found"));
            },
        };
        let task_id = match tasks.create_task(marker_id, image_id, TaskType::Translation, service_id.clone()) {
            Ok(id) => id,
            Err(e) => {
                return Err(e);
            },
        };
        Ok(PluginTranslationRequest {
            task_id,
            marker_id,
            image_id,
            service_id,
            text,
            source_language,
            target_language,
        })
    }

    /// Records recognised text: the task is completed and the marker's cache
    /// entry takes the text and model; refused, with nothing changed, for an
    /// unknown task.
    pub fn handle_ocr_completed(
        &self,
        tasks: &mut TaskManager,
        cache: &mut BunnyCacheStorage,
        task_id: String,
        marker_id: MarkerId,
        text: String,
        model: String,
    ) -> (r: Result<(), String>)
        requires
            old(tasks).wf(),
        ensures
            final(tasks).wf(),
            !old(tasks)@.contains_key(task_id@) ==> (r matches Err(e) && e@ == task_not_found(task_id@))
                && final(tasks)@ == old(tasks)@ && final(cache)@ == old(cache)@,
            old(tasks)@.contains_key(task_id@) ==> {
                &&& r is Ok
                &&& final(tasks)@.dom() == old(tasks)@.dom()
                &&& final(tasks)@.remove(task_id@) == old(tasks)@.remove(task_id@)
                &&& completed(old(tasks)@[task_id@], final(tasks)@[task_id@])
                &&& final(cache)@ == old(cache)@.insert(
                    marker_id,
                    BunnyCacheView {
                        original_text: Some(text@),
                        last_ocr_model: Some(model@),
                        ..entry_or_empty(old(cache)@, marker_id)
                    },
                )
            },
    {
        match tasks.complete_task(task_id.as_str()) {
            Ok(()) => {},
            Err(e) => {
                return Err(e);
            },
        }
        let _ = update_original_text_storage(cache, marker_id, text, model);
        Ok(())
    }

    /// Records a machine translation: the task is completed and the marker's
    /// cache entry takes the translation and service; refused, with nothing
    /// changed, for an unknown task.
    pub fn handle_translation_completed(
        &self,
        tasks: &mut TaskManager,
        cache: &mut BunnyCacheStorage,
        task_id: String,
        marker_id: MarkerId,
        translated_text: String,
        service: String,
    ) -> (r: Result<(), String>)
        requires
            old(tasks).wf(),
        ensures
            final(tasks).wf(),
            !old(tasks)@.contains_key(task_id@) ==> (r matches Err(e) && e@ == task_not_found(task_id@))
                && final(tasks)@ == old(tasks)@ && final(cache)@ == old(cache)@,
            old(tasks)@.contains_key(task_id@) ==> {
                &&& r is Ok
                &&& final(tasks)@.dom() == old(tasks)@.dom()
                &&& final(tasks)@.remove(task_id@) == old(tasks)@.remove(task_id@)
                &&& completed(old(tasks)@[task_id@], final(tasks)@[task_id@])
                &&& final(cache)@ == old(cache)@.insert(
                    marker_id,
                    BunnyCacheView {
                        machine_translation: Some(translated_text@),
                        last_translation_service: Some(service@),
                        ..entry_or_empty(old(cache)@, marker_id)
                    },
                )
            },
    {
        match tasks.complete_task(task_id.as_str()) {
            Ok(()) => {},
            Err(e) => {
                return Err(e);
            },
        }
        let _ = update_machine_translation_storage(cache, marker_id, translated_text, service);
        Ok(())
    }

    /// Records a failed task; refused, with nothing changed, for an unknown
    /// task.
    pub fn handle_task_failed(&self, tasks: &mut TaskManager, task_id: String, error: String) -> (r: Result<
        (),
        String,
    >)
        requires
            old(tasks).wf(),
        ensures
            final(tasks).wf(),
            !old(tasks)@.contains_key(task_id@) ==> (r matches Err(e) && e@ == task_not_found(task_id@))
                && final(tasks)@ == old(tasks)@,
            old(tasks)@.contains_key(task_id@) ==> {
                &&& r is Ok
                &&& final(tasks)@.dom() == old(tasks)@.dom()
                &&& final(tasks)@.remove(task_id@) == old(tasks)@.remove(task_id@)
                &&& failed(old(tasks)@[task_id@], final(tasks)@[task_id@], error@)
            },
    {
        tasks.fail_task(task_id.as_str(), error)
    }
}

} // verus!
