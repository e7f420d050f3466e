use vstd::prelude::*;
use crate::ids::{ImageId, MarkerId};
use crate::clock::get_timestamp_millis;
use crate::strmap::{StrMap, lists_str_values};
use crate::text::{decimal, push_decimal, push_str, string_from_chars, concat_str, string_of};
use crate::project::{clone_opt_string, opt_str_view};

verus! {

/// Progress of a machine task.
#[derive(Debug, Clone, Copy, PartialEq, Eq, Structural)]
pub enum TaskStatus {
    Queued,
    Processing,
    Completed,
    Failed,
}

/// What a machine task does.
#[derive(Debug, Clone, Copy, PartialEq, Eq, Structural)]
pub enum TaskType {
    OCR,
    Translation,
}

/// A machine recognition or translation task for one marker.
#[derive(Debug)]
pub struct BunnyTask {
    pub task_id: String,
    pub marker_id: MarkerId,
    pub image_id: ImageId,
    pub task_type: TaskType,
    pub service_id: String,
    pub status: TaskStatus,
    pub created_at: u64,
    pub started_at: Option<u64>,
    pub completed_at: Option<u64>,
    pub error: Option<String>,
}

/// The abstract value of a task.
pub struct BunnyTaskView {
    pub task_id: Seq<char>,
    pub marker_id: MarkerId,
    pub image_id: ImageId,
    pub task_type: TaskType,
    pub service_id: Seq<char>,
    pub status: TaskStatus,
    pub created_at: u64,
    pub started_at: Option<u64>,
    pub completed_at: Option<u64>,
    pub error: Option<Seq<char>>,
}

impl View for BunnyTask {
    type V = BunnyTaskView;

    open spec fn view(&self) -> BunnyTaskView {
        BunnyTaskView {
            task_id: self.task_id@,
            marker_id: self.marker_id,
            image_id: self.image_id,
            task_type: self.task_type,
            service_id: self.service_id@,
            status: self.status,
            created_at: self.created_at,
            started_at: self.started_at,
            completed_at: self.completed_at,
            error: opt_str_view(self.error),
        }
    }
}

impl Clone for BunnyTask {
    fn clone(&self) -> (r: Self)
        ensures
            r@ == self@,
    {
        BunnyTask {
            task_id: self.task_id.clone(),
            marker_id: self.marker_id,
            image_id: self.image_id,
            task_type: self.task_type,
            service_id: self.service_id.clone(),
            status: self.status,
            created_at: self.created_at,
            started_at: self.started_at,
            completed_at: self.completed_at,
            error: clone_opt_string(&self.error),
        }
    }
}

/// A task just created: queued, not started, no error; `created_at` is the
/// clock reading it was stamped with.
pub open spec fn is_new_task(
    t: BunnyTaskView,
    task_id: Seq<char>,
    marker_id: MarkerId,
    image_id: ImageId,
    task_type: TaskType,
    service_id: Seq<char>,
) -> bool {
    &&& t.task_id == task_id
    &&& t.marker_id == marker_id
    &&& t.image_id == image_id
    &&& t.task_type == task_type
    &&& t.service_id == service_id
    &&& t.status == TaskStatus::Queued
    &&& t.started_at is None
    &&& t.completed_at is None
    &&& t.error is None
}

/// The task after `start`: processing, with a start time.
pub open spec fn started(old_t: BunnyTaskView, t: BunnyTaskView) -> bool {
    &&& t.started_at is Some
    &&& t == BunnyTaskView { status: TaskStatus::Processing, started_at: t.started_at, ..old_t }
}

/// The task after `complete`: completed, with a completion time.
pub open spec fn completed(old_t: BunnyTaskView, t: BunnyTaskView) -> bool {
    &&& t.completed_at is Some
    &&& t == BunnyTaskView { status: TaskStatus::Completed, completed_at: t.completed_at, ..old_t }
}

/// The task after `fail(error)`: failed, with the error and a completion time.
pub open spec fn failed(old_t: BunnyTaskView, t: BunnyTaskView, error: Seq<char>) -> bool {
    &&& t.completed_at is Some
    &&& t == BunnyTaskView {
        status: TaskStatus::Failed,
        error: Some(error),
        completed_at: t.completed_at,
        ..old_t
    }
}

impl BunnyTask {
    /// A queued task stamped with the current time.
    pub fn new(
        task_id: String,
        marker_id: MarkerId,
        image_id: ImageId,
        task_type: TaskType,
        service_id: String,
    ) -> (t: Self)
        ensures
            is_new_task(t@, task_id@, marker_id, image_id, task_type, service_id@),
    {
        BunnyTask {
            task_id,
            marker_id,
            image_id,
            task_type,
            service_id,
            status: TaskStatus::Queued,
            created_at: get_timestamp_millis(),
            started_at: None,
            completed_at: None,
            error: None,
        }
    }

    /// Marks the task as processing, stamping the start time.
    pub fn start(&mut self)
        ensures
            started(old(self)@, final(self)@),
    {
        self.status = TaskStatus::Processing;
        self.started_at = Some(get_timestamp_millis());
    }

    /// Marks the task as completed, stamping the completion time.
    pub fn complete(&mut self)
        ensures
            completed(old(self)@, final(self)@),
    {
        self.status = TaskStatus::Completed;
        self.completed_at = Some(get_timestamp_millis());
    }

    /// Marks the task as failed with an error, stamping the completion time.
    pub fn fail(&mut self, error: String)
        ensures
            failed(old(self)@, final(self)@, error@),
    {
        self.status = TaskStatus::Failed;
        self.error = Some(error);
        self.completed_at = Some(get_timestamp_millis());
    }
}

/// The debug name of a task type.
pub open spec fn task_type_name(t: TaskType) -> Seq<char> {
    match t {
        TaskType::OCR => "OCR"@,
        TaskType::Translation => "Translation"@,
    }
}

/// The identifier given to a task created at time `ts`:
/// `bunny_task_{ts}_{marker}_{type}`.
pub open spec fn task_id_text(ts: u64, marker_id: MarkerId, task_type: TaskType) -> Seq<char> {
    "bunny_task_"@ + decimal(ts as nat) + "_"@ + decimal(marker_id as nat) + "_"@ + task_type_name(task_type)
}

/// The error reported for an unknown task.
pub open spec fn task_not_found(task_id: Seq<char>) -> Seq<char> {
    "Task not found: "@ + task_id
}

fn make_task_id(ts: u64, marker_id: MarkerId, task_type: TaskType) -> (r: String)
    ensures
        r@ == task_id_text(ts, marker_id, task_type),
{
    let mut out: Vec<char> = Vec::new();
    push_str(&mut out, "bunny_task_");
    push_decimal(&mut out, ts);
    push_str(&mut out, "_");
    push_decimal(&mut out, marker_id as u64);
    push_str(&mut out, "_");
    match task_type {
        TaskType::OCR => push_str(&mut out, "OCR"),
        TaskType::Translation => push_str(&mut out, "Translation"),
    }
    assert(out@ =~= task_id_text(ts, marker_id, task_type));
    string_from_chars(&out)
}

/// The tasks of the machine services, keyed by task identifier.
pub struct TaskManager {
    tasks: StrMap<BunnyTask>,
}

impl View for TaskManager {
    type V = Map<Seq<char>, BunnyTaskView>;

    closed spec fn view(&self) -> Map<Seq<char>, BunnyTaskView> {
        self.tasks.map()
    }
}

impl TaskManager {
    /// The manager's internal consistency.
    pub closed spec fn wf(&self) -> bool {
        self.tasks.wf()
    }

    /// A manager with no tasks.
    pub fn new() -> (m: Self)
        ensures
            m.wf(),
            m@ == Map::<Seq<char>, BunnyTaskView>::empty(),
    {
        TaskManager { tasks: StrMap::new() }
    }

    /// Creates a queued task named after the current time, the marker and the
    /// type, and stores it (replacing a task of the same name).
    pub fn create_task(
        &mut self,
        marker_id: MarkerId,
        image_id: ImageId,
        task_type: TaskType,
        service_id: String,
    ) -> (r: Result<String, String>)
        requires
            old(self).wf(),
        ensures
            final(self).wf(),
            r is Ok,
            exists|ts: u64| r->Ok_0@ == task_id_text(ts, marker_id, task_type),
            final(self)@.dom() == old(self)@.dom().insert(r->Ok_0@),
            forall|k: Seq<char>| #[trigger]
                old(self)@.contains_key(k) && k != r->Ok_0@ ==> final(self)@[k] == old(self)@[k],
            is_new_task(final(self)@[r->Ok_0@], r->Ok_0@, marker_id, image_id, task_type, service_id@),
    {
        let ts = get_timestamp_millis();
        let task_id = make_task_id(ts, marker_id, task_type);
        let task = BunnyTask::new(task_id.clone(), marker_id, image_id, task_type, service_id);
        self.tasks.insert(task_id.clone(), task);
        assert(self@.dom() =~= old(self)@.dom().insert(task_id@));
        Ok(task_id)
    }

    /// A copy of a task, if any.
    pub fn get_task(&self, task_id: &str) -> (r: Result<Option<BunnyTask>, String>)
        requires
            self.wf(),
        ensures
            match r {
                Ok(Some(t)) => self@.contains_key(task_id@) && t@ == self@[task_id@],
                Ok(None) => !self@.contains_key(task_id@),
                Err(_) => false,
            },
    {
        match self.tasks.get(task_id) {
            Some(t) => Ok(Some(t.clone())),
            None => Ok(None),
        }
    }

    /// Marks a task as processing; an error when there is no such task.
    pub fn start_task(&mut self, task_id: &str) -> (r: Result<(), String>)
        requires
            old(self).wf(),
        ensures
            final(self).wf(),
            old(self)@.contains_key(task_id@) ==> {
                &&& r is Ok
                &&& final(self)@.dom() == old(self)@.dom()
                &&& final(self)@.remove(task_id@) == old(self)@.remove(task_id@)
                &&& started(old(self)@[task_id@], final(self)@[task_id@])
            },
            !old(self)@.contains_key(task_id@) ==> {
                &&& r matches Err(e) && e@ == task_not_found(task_id@)
                &&& final(self)@ == old(self)@
            },
    {
        match self.tasks.remove(task_id) {
            Some(mut task) => {
                task.start();
                self.tasks.insert(string_of(task_id), task);
                assert(self@.dom() =~= old(self)@.dom());
                assert(self@.remove(task_id@) =~= old(self)@.remove(task_id@));
                Ok(())
            },
            None => Err(concat_str("Task not found: ", task_id)),
        }
    }

    /// Marks a task as completed; an error when there is no such task.
    pub fn complete_task(&mut self, task_id: &str) -> (r: Result<(), String>)
        requires
            old(self).wf(),
        ensures
            final(self).wf(),
            old(self)@.contains_key(task_id@) ==> {
                &&& r is Ok
                &&& final(self)@.dom() == old(self)@.dom()
                &&& final(self)@.remove(task_id@) == old(self)@.remove(task_id@)
                &&& completed(old(self)@[task_id@], final(self)@[task_id@])
            },
            !old(self)@.contains_key(task_id@) ==> {
                &&& r matches Err(e) && e@ == task_not_found(task_id@)
                &&& final(self)@ == old(self)@
            },
    {
        match self.tasks.remove(task_id) {
            Some(mut task) => {
                task.complete();
                self.tasks.insert(string_of(task_id), task);
                assert(self@.dom() =~= old(self)@.dom());
                assert(self@.remove(task_id@) =~= old(self)@.remove(task_id@));
                Ok(())
            },
            None => Err(concat_str("Task not found: ", task_id)),
        }
    }

    /// Marks a task as failed with an error; an error when there is no such
    /// task.
    pub fn fail_task(&mut self, task_id: &str, error: String) -> (r: Result<(), String>)
        requires
            old(self).wf(),
        ensures
            final(self).wf(),
            old(self)@.contains_key(task_id@) ==> {
                &&& r is Ok
                &&& final(self)@.dom() == old(self)@.dom()
                &&& final(self)@.remove(task_id@) == old(self)@.remove(task_id@)
                &&& failed(old(self)@[task_id@], final(self)@[task_id@], error@)
            },
            !old(self)@.contains_key(task_id@) ==> {
                &&& r matches Err(e) && e@ == task_not_found(task_id@)
                &&& final(self)@ == old(self)@
            },
    {
        match self.tasks.remove(task_id) {
            Some(mut task) => {
                task.fail(error);
                self.tasks.insert(string_of(task_id), task);
                assert(self@.dom() =~= old(self)@.dom());
                assert(self@.remove(task_id@) =~= old(self)@.remove(task_id@));
                Ok(())
            },
            None => Err(concat_str("Task not found: ", task_id)),
        }
    }

    /// Copies of all tasks, in the manager's own order.
    pub fn get_all_tasks(&self) -> (r: Result<Vec<BunnyTask>, String>)
        requires
            self.wf(),
        ensures
            match r {
                Ok(v) => lists_str_values(v@.map_values(|t: BunnyTask| t@), self@),
                Err(_) => false,
            },
    {
        let refs = self.tasks.value_refs();
        let mut out: Vec<BunnyTask> = Vec::new();
        let mut i: usize = 0;
        while i < refs.len()
            invariant
                i <= refs@.len(),
                out@.len() == i,
                forall|j: int| 0 <= j < i ==> out@[j]@ == refs@[j]@,
            decreases refs@.len() - i,
        {
            out.push(refs[i].clone());
            i = i + 1;
        }
        assert(out@.map_values(|t: BunnyTask| t@) =~= refs@.map_values(|t: &BunnyTask| t@));
        Ok(out)
    }

    /// Forgets a task (nothing happens when there is none).
    pub fn remove_task(&mut self, task_id: &str) -> (r: Result<(), String>)
        requires
            old(self).wf(),
        ensures
            final(self).wf(),
            r is Ok,
            final(self)@ == old(self)@.remove(task_id@),
    {
        let _ = self.tasks.remove(task_id);
        Ok(())
    }

    /// Forgets every task.
    pub fn clear_all_tasks(&mut self) -> (r: Result<(), String>)
        ensures
            final(self).wf(),
            r is Ok,
            final(self)@ == Map::<Seq<char>, BunnyTaskView>::empty(),
    {
        self.tasks.clear();
        Ok(())
    }
}

} // verus!
