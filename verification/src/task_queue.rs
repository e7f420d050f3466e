use vstd::prelude::*;
use std::collections::VecDeque;
use std::sync::Arc;
use std::sync::atomic::{AtomicBool, AtomicU64, Ordering};
use crate::clock::get_timestamp_millis;
use crate::cancellation::CancellationManager;
use crate::executor::{TaskExecutor, TaskNotice, TaskNoticeView, notice_list, outcome_notice, cancelled_task, completed_task, running_task};
use crate::plugin_manager::BunnyPluginManager;
use crate::queued_task::{ActiveTask, BunnyTask, QueuedTask, QueuedTaskView, TaskStatus, TaskType};
use crate::strmap::{StrMap, lists_str_values};
use crate::text::{str_equal, string_of};

verus! {

/// The tasks of a queue, in order.
pub open spec fn queue_views(q: Seq<QueuedTask>) -> Seq<QueuedTaskView> {
    q.map_values(|t: QueuedTask| t.task@)
}

/// The identifiers of some task values, in order.
pub open spec fn task_ids(q: Seq<QueuedTaskView>) -> Seq<Seq<char>> {
    q.map_values(|t: QueuedTaskView| t.id)
}

/// Whether position `i` holds the first task of `q` with identifier `id`.
pub open spec fn first_with_id(q: Seq<QueuedTaskView>, id: Seq<char>, i: int) -> bool {
    &&& 0 <= i < q.len()
    &&& q[i].id == id
    &&& forall|j: int| 0 <= j < i ==> (#[trigger] q[j]).id != id
}

/// Whether a task has ended.
pub open spec fn finished(t: QueuedTaskView) -> bool {
    t.status == TaskStatus::Completed || t.status == TaskStatus::Cancelled || t.status == TaskStatus::Failed
}

/// Whether a task is waiting or running.
pub open spec fn in_progress(t: QueuedTaskView) -> bool {
    t.status == TaskStatus::Queued || t.status == TaskStatus::Processing
}

/// `c` decremented `n` times, wrapping below zero.
pub open spec fn wrapped_down(c: usize, n: nat) -> usize
    decreases n,
{
    if n == 0 {
        c
    } else {
        let p = wrapped_down(c, (n - 1) as nat);
        if p == 0 {
            usize::MAX
        } else {
            (p - 1) as usize
        }
    }
}

/// The number of entries of type `ty` in `rem`.
pub open spec fn count_of_type(rem: Seq<(Seq<char>, TaskType)>, ty: TaskType) -> nat
    decreases rem.len(),
{
    if rem.len() == 0 {
        0
    } else {
        count_of_type(rem.drop_last(), ty) + (if rem.last().1 == ty {
            1nat
        } else {
            0nat
        })
    }
}

/// Whether a running task's shared counters say it is over: its progress
/// reached 100 or its flag was raised (what they hold is not known here).
fn ended_by_counters(at: &ActiveTask) -> bool {
    let p = at.progress.load(Ordering::SeqCst);
    p >= 100 || at.cancellation_token.load(Ordering::SeqCst)
}

/// The keys of `ks` chosen by `dec`.
pub open spec fn chosen_set(ks: Seq<Seq<char>>, dec: Seq<bool>) -> Set<Seq<char>>
    decreases ks.len(),
{
    if ks.len() == 0 || dec.len() == 0 {
        Set::empty()
    } else {
        let prev = chosen_set(ks.drop_last(), dec.drop_last());
        if dec.last() {
            prev.insert(ks.last())
        } else {
            prev
        }
    }
}

/// How many keys chosen by `dec` belong to tasks of kind `ty` in `active`.
pub open spec fn count_chosen(ks: Seq<Seq<char>>, dec: Seq<bool>, active: Map<Seq<char>, QueuedTaskView>, ty: TaskType) -> nat
    decreases ks.len(),
{
    if ks.len() == 0 || dec.len() == 0 {
        0
    } else {
        count_chosen(ks.drop_last(), dec.drop_last(), active, ty) + (if dec.last() && active[ks.last()].task_type == ty {
            1nat
        } else {
            0nat
        })
    }
}

/// The chosen keys are keys of the list.
pub proof fn lemma_chosen_within(ks: Seq<Seq<char>>, dec: Seq<bool>, k: Seq<char>)
    requires
        chosen_set(ks, dec).contains(k),
    ensures
        ks.contains(k),
    decreases ks.len(),
{
    if ks.len() > 0 && dec.len() > 0 {
        let prev = ks.drop_last();
        if chosen_set(prev, dec.drop_last()).contains(k) {
            lemma_chosen_within(prev, dec.drop_last(), k);
            let j = choose|j: int| 0 <= j < prev.len() && prev[j] == k;
            assert(ks[j] == k);
        } else {
            assert(ks[ks.len() - 1] == k);
        }
    }
}

/// What cleaning up running tasks did, given the running tasks' keys `ks`
/// and the decision `dec` taken for each: a task known to the system is
/// dropped exactly when it has ended (one no longer known is dropped when
/// its progress reached 100 or its flag was raised, which only its shared
/// counters tell); the counters go down once per dropped task of their kind.
pub open spec fn cleaned(
    o_active: Map<Seq<char>, QueuedTaskView>,
    o_all: Map<Seq<char>, QueuedTaskView>,
    o_counts: (usize, usize),
    n_active: Map<Seq<char>, QueuedTaskView>,
    n_counts: (usize, usize),
    ks: Seq<Seq<char>>,
    dec: Seq<bool>,
) -> bool {
    &&& crate::strmap::enumerates_str(ks, o_active.dom())
    &&& ks.len() == dec.len()
    &&& forall|j: int| 0 <= j < ks.len() && o_all.contains_key(#[trigger] ks[j]) ==> (dec[j] <==> finished(o_all[ks[j]]))
    &&& n_active == o_active.remove_keys(chosen_set(ks, dec))
    &&& n_counts.0 == wrapped_down(o_counts.0, count_chosen(ks, dec, o_active, TaskType::OCR))
    &&& n_counts.1 == wrapped_down(o_counts.1, count_chosen(ks, dec, o_active, TaskType::Translation))
}

/// The tasks of `all` that are waiting or running.
pub open spec fn in_progress_tasks(all: Map<Seq<char>, QueuedTaskView>) -> Map<Seq<char>, QueuedTaskView> {
    all.restrict(Set::new(|k: Seq<char>| all.contains_key(k) && in_progress(all[k])))
}

/// Whether notice `n` announces the end of task `t`: its cancellation, or
/// its completion (the executor completes tasks with an empty result).
pub open spec fn announces_end(n: TaskNoticeView, t: QueuedTaskView) -> bool {
    ||| n == outcome_notice(QueuedTaskView { status: TaskStatus::Cancelled, ..t })
    ||| n == outcome_notice(QueuedTaskView { status: TaskStatus::Completed, result: Some(Seq::empty()), ..t })
}

/// The notices `f` are the notices `o` followed by one notice announcing
/// the end of each task of `started`, in order.
pub open spec fn announced(o: Seq<TaskNoticeView>, f: Seq<TaskNoticeView>, started: Seq<QueuedTaskView>) -> bool {
    &&& f.len() == o.len() + started.len()
    &&& f.take(o.len() as int) == o
    &&& forall|j: int| 0 <= j < started.len() ==> announces_end(f[o.len() + j], #[trigger] started[j])
}

/// The queue after one scheduling pass over the waiting recognition tasks:
/// the first `to_start` of them leave the queue, run (and end), and raise
/// the running count; every other task and the other queue stay.
pub open spec fn ocr_scheduled(o: TaskQueueSystem, f: TaskQueueSystem) -> bool {
    let k = o.to_start(TaskType::OCR);
    let started = task_ids(o.ocr_waiting().take(k)).to_set();
    &&& f.wf()
    &&& f.ocr_waiting() == o.ocr_waiting().skip(k)
    &&& f.counts() == (((o.counts().0 + k) as usize), o.counts().1)
    &&& f.active().dom() == o.active().dom().union(started)
    &&& f.all().dom() == o.all().dom().union(started)
    &&& forall|id: Seq<char>| #[trigger]
        f.all().contains_key(id) && !started.contains(id) ==> f.all()[id] == o.all()[id]
    &&& forall|id: Seq<char>| #[trigger]
        f.active().contains_key(id) && !started.contains(id) ==> f.active()[id] == o.active()[id]
    &&& forall|id: Seq<char>| #[trigger]
        started.contains(id) ==> f.active()[id].status == TaskStatus::Processing && (f.all()[id].status
            == TaskStatus::Cancelled || f.all()[id].status == TaskStatus::Completed)
    &&& f.translation_waiting() == o.translation_waiting()
    &&& announced(o.notices(), f.notices(), o.ocr_waiting().take(k))
    &&& f.limits() == o.limits()
    &&& f.running() == o.running()
    &&& f.flagged() == o.flagged()
}

/// The queue after one scheduling pass over the waiting translation tasks:
/// the first `to_start` of them leave the queue, run (and end), and raise
/// the running count; every other task and the other queue stay.
pub open spec fn translation_scheduled(o: TaskQueueSystem, f: TaskQueueSystem) -> bool {
    let k = o.to_start(TaskType::Translation);
    let started = task_ids(o.translation_waiting().take(k)).to_set();
    &&& f.wf()
    &&& f.translation_waiting() == o.translation_waiting().skip(k)
    &&& f.counts() == (o.counts().0, ((o.counts().1 + k) as usize))
    &&& f.active().dom() == o.active().dom().union(started)
    &&& f.all().dom() == o.all().dom().union(started)
    &&& forall|id: Seq<char>| #[trigger]
        f.all().contains_key(id) && !started.contains(id) ==> f.all()[id] == o.all()[id]
    &&& forall|id: Seq<char>| #[trigger]
        f.active().contains_key(id) && !started.contains(id) ==> f.active()[id] == o.active()[id]
    &&& forall|id: Seq<char>| #[trigger]
        started.contains(id) ==> f.active()[id].status == TaskStatus::Processing && (f.all()[id].status
            == TaskStatus::Cancelled || f.all()[id].status == TaskStatus::Completed)
    &&& f.ocr_waiting() == o.ocr_waiting()
    &&& announced(o.notices(), f.notices(), o.translation_waiting().take(k))
    &&& f.limits() == o.limits()
    &&& f.running() == o.running()
    &&& f.flagged() == o.flagged()
}

/// A scheduling pass over the waiting recognition tasks starts the first
/// `min(limit - running, waiting)` of them, in queue order, and leaves the
/// running count within the limit when it was within it.
pub proof fn law_ocr_scheduling_respects_the_limit(o: TaskQueueSystem, f: TaskQueueSystem)
    requires
        ocr_scheduled(o, f),
        o.counts().0 <= o.limits().0,
    ensures
        ({
            let room = o.limits().0 - o.counts().0;
            let k = if o.ocr_waiting().len() < room { o.ocr_waiting().len() as int } else { room };
            &&& f.counts().0 == o.counts().0 + k
            &&& f.counts().0 <= f.limits().0
            &&& f.ocr_waiting() == o.ocr_waiting().skip(k)
            &&& announced(o.notices(), f.notices(), o.ocr_waiting().take(k))
        }),
{
}

/// A scheduling pass over the waiting translation tasks starts the first
/// `min(limit - running, waiting)` of them, in queue order, and leaves the
/// running count within the limit when it was within it.
pub proof fn law_translation_scheduling_respects_the_limit(o: TaskQueueSystem, f: TaskQueueSystem)
    requires
        translation_scheduled(o, f),
        o.counts().1 <= o.limits().1,
    ensures
        ({
            let room = o.limits().1 - o.counts().1;
            let k = if o.translation_waiting().len() < room { o.translation_waiting().len() as int } else { room };
            &&& f.counts().1 == o.counts().1 + k
            &&& f.counts().1 <= f.limits().1
            &&& f.translation_waiting() == o.translation_waiting().skip(k)
            &&& announced(o.notices(), f.notices(), o.translation_waiting().take(k))
        }),
{
}

/// The queue after ended running tasks are dropped (see `cleaned`); the
/// known tasks, the queues and the settings stay.
pub open spec fn tasks_cleaned(o: TaskQueueSystem, f: TaskQueueSystem) -> bool {
    &&& f.wf()
    &&& exists|ks: Seq<Seq<char>>, dec: Seq<bool>|
        #[trigger] cleaned(o.active(), o.all(), o.counts(), f.active(), f.counts(), ks, dec)
    &&& f.all() == o.all()
    &&& f.ocr_waiting() == o.ocr_waiting()
    &&& f.translation_waiting() == o.translation_waiting()
    &&& f.limits() == o.limits()
    &&& f.running() == o.running()
    &&& f.flagged() == o.flagged()
}

/// The steps of one scheduler round from `o` to `f` through `s1` and `s2`.
pub open spec fn tick_steps(o: TaskQueueSystem, s1: TaskQueueSystem, s2: TaskQueueSystem, f: TaskQueueSystem) -> bool {
    &&& ocr_scheduled(o, s1)
    &&& translation_scheduled(s1, s2)
    &&& tasks_cleaned(s2, f)
}

/// Queues of recognition and translation tasks, run by the executor up to a
/// limit of running tasks per kind.
pub struct TaskQueueSystem {
    ocr_queue: VecDeque<QueuedTask>,
    translation_queue: VecDeque<QueuedTask>,
    active_tasks: StrMap<ActiveTask>,
    all_tasks: StrMap<BunnyTask>,
    executor: TaskExecutor,
    cancellation_manager: CancellationManager,
    ocr_active_count: usize,
    translation_active_count: usize,
    max_concurrent_ocr: usize,
    max_concurrent_translation: usize,
    scheduler_running: bool,
    notices: Vec<TaskNotice>,
}

impl TaskQueueSystem {
    /// Every task known, by identifier.
    pub closed spec fn all(&self) -> Map<Seq<char>, QueuedTaskView> {
        self.all_tasks.map()
    }

    /// The running tasks, by identifier.
    pub closed spec fn active(&self) -> Map<Seq<char>, QueuedTaskView> {
        self.active_tasks.map()
    }

    /// The waiting recognition tasks, in order.
    pub closed spec fn ocr_waiting(&self) -> Seq<QueuedTaskView> {
        queue_views(self.ocr_queue@)
    }

    /// The waiting translation tasks, in order.
    pub closed spec fn translation_waiting(&self) -> Seq<QueuedTaskView> {
        queue_views(self.translation_queue@)
    }

    /// The waiting tasks of a kind.
    pub open spec fn waiting(&self, ty: TaskType) -> Seq<QueuedTaskView> {
        match ty {
            TaskType::OCR => self.ocr_waiting(),
            TaskType::Translation => self.translation_waiting(),
        }
    }

    /// The counters of running recognition and translation tasks.
    pub closed spec fn counts(&self) -> (usize, usize) {
        (self.ocr_active_count, self.translation_active_count)
    }

    /// The limits on running recognition and translation tasks.
    pub closed spec fn limits(&self) -> (usize, usize) {
        (self.max_concurrent_ocr, self.max_concurrent_translation)
    }

    /// Whether the scheduler is to keep running.
    pub closed spec fn running(&self) -> bool {
        self.scheduler_running
    }

    /// The notices of ended tasks not yet handed out, oldest first.
    pub closed spec fn notices(&self) -> Seq<TaskNoticeView> {
        notice_list(self.notices@)
    }

    /// Hands out the notices of ended tasks (oldest first) for the front end
    /// and forgets them; nothing else changes.
    pub fn take_notices(&mut self) -> (r: Vec<TaskNotice>)
        requires
            old(self).wf(),
        ensures
            final(self).wf(),
            notice_list(r@) == old(self).notices(),
            final(self).notices() == Seq::<TaskNoticeView>::empty(),
            final(self).all() == old(self).all(),
            final(self).active() == old(self).active(),
            final(self).ocr_waiting() == old(self).ocr_waiting(),
            final(self).translation_waiting() == old(self).translation_waiting(),
            final(self).counts() == old(self).counts(),
            final(self).limits() == old(self).limits(),
            final(self).running() == old(self).running(),
            final(self).flagged() == old(self).flagged(),
    {
        let mut out: Vec<TaskNotice> = Vec::new();
        std::mem::swap(&mut out, &mut self.notices);
        assert(notice_list(self.notices@) =~= Seq::<TaskNoticeView>::empty());
        out
    }

    /// Whether the scheduler is to keep running.
    pub fn is_running(&self) -> (r: bool)
        ensures
            r == self.running(),
    {
        self.scheduler_running
    }

    /// The tasks with a cancellation flag.
    pub closed spec fn flagged(&self) -> Set<Seq<char>> {
        self.cancellation_manager.task_ids()
    }

    /// Internal consistency.
    pub closed spec fn wf(&self) -> bool {
        &&& self.active_tasks.wf()
        &&& self.all_tasks.wf()
        &&& self.cancellation_manager.wf()
    }

    /// An empty system allowing five running tasks of each kind, with the
    /// scheduler set to run.
    pub fn new() -> (s: Self)
        ensures
            s.wf(),
            s.all() == Map::<Seq<char>, QueuedTaskView>::empty(),
            s.active() == Map::<Seq<char>, QueuedTaskView>::empty(),
            s.ocr_waiting() == Seq::<QueuedTaskView>::empty(),
            s.translation_waiting() == Seq::<QueuedTaskView>::empty(),
            s.counts() == (0usize, 0usize),
            s.limits() == (5usize, 5usize),
            s.running(),
            s.flagged() == Set::<Seq<char>>::empty(),
    {
        let s = TaskQueueSystem {
            ocr_queue: VecDeque::new(),
            translation_queue: VecDeque::new(),
            active_tasks: StrMap::new(),
            all_tasks: StrMap::new(),
            executor: TaskExecutor::new(),
            cancellation_manager: CancellationManager::new(),
            ocr_active_count: 0,
            translation_active_count: 0,
            max_concurrent_ocr: 5,
            max_concurrent_translation: 5,
            scheduler_running: true,
            notices: Vec::new(),
        };
        assert(s.ocr_waiting() =~= Seq::<QueuedTaskView>::empty());
        assert(s.translation_waiting() =~= Seq::<QueuedTaskView>::empty());
        s
    }

    /// Queues a task: it is marked queued, gets a cancellation flag, is
    /// recorded, and joins the end of its kind's queue.
    pub fn enqueue_task(&mut self, task: BunnyTask) -> (r: Result<(), String>)
        requires
            old(self).wf(),
        ensures
            final(self).wf(),
            r is Ok,
            ({
                let t = QueuedTaskView { status: TaskStatus::Queued, ..task@ };
                &&& final(self).all() == old(self).all().insert(task@.id, t)
                &&& final(self).flagged() == old(self).flagged().insert(task@.id)
                &&& final(self).waiting(task@.task_type) == old(self).waiting(task@.task_type).push(t)
                &&& task@.task_type == TaskType::OCR ==> final(self).translation_waiting() == old(
                    self,
                ).translation_waiting()
                &&& task@.task_type == TaskType::Translation ==> final(self).ocr_waiting() == old(self).ocr_waiting()
                &&& final(self).active() == old(self).active()
                &&& final(self).counts() == old(self).counts()
                &&& final(self).limits() == old(self).limits()
                &&& final(self).running() == old(self).running()
            }),
    {
        let mut task = task;
        task.status = TaskStatus::Queued;
        let task_id = task.id.clone();
        let token = self.cancellation_manager.create_token(task_id.clone());
        let queued = QueuedTask { task: task.clone(), cancellation_token: token };
        self.all_tasks.insert(task_id, task);
        let ghost before_ocr = self.ocr_waiting();
        let ghost before_tr = self.translation_waiting();
        match queued.task.task_type {
            TaskType::OCR => {
                self.ocr_queue.push_back(queued);
                assert(self.ocr_waiting() =~= before_ocr.push(queued.task@));
            },
            TaskType::Translation => {
                self.translation_queue.push_back(queued);
                assert(self.translation_waiting() =~= before_tr.push(queued.task@));
            },
        }
        Ok(())
    }

    /// Takes the first waiting task with an identifier out of its kind's
    /// queue; an error when there is none.
    fn remove_from_queue(&mut self, task_id: &str, task_type: TaskType) -> (r: Result<(), String>)
        requires
            old(self).wf(),
        ensures
            final(self).wf(),
            final(self).all() == old(self).all(),
            final(self).active() == old(self).active(),
            final(self).counts() == old(self).counts(),
            final(self).limits() == old(self).limits(),
            final(self).running() == old(self).running(),
            final(self).flagged() == old(self).flagged(),
            (exists|i: int| first_with_id(old(self).waiting(task_type), task_id@, i)) ==> {
                let i = choose|i: int| first_with_id(old(self).waiting(task_type), task_id@, i);
                &&& r is Ok
                &&& final(self).waiting(task_type) == old(self).waiting(task_type).remove(i)
            },
            !(exists|i: int| first_with_id(old(self).waiting(task_type), task_id@, i)) ==> {
                &&& r matches Err(e) && e@ == "Task not found in queue"@
                &&& final(self).waiting(task_type) == old(self).waiting(task_type)
            },
            task_type == TaskType::OCR ==> final(self).translation_waiting() == old(self).translation_waiting(),
            task_type == TaskType::Translation ==> final(self).ocr_waiting() == old(self).ocr_waiting(),
    {
        let ghost q = old(self).waiting(task_type);
        let n = match task_type {
            TaskType::OCR => self.ocr_queue.len(),
            TaskType::Translation => self.translation_queue.len(),
        };
        let mut i: usize = 0;
        while i < n
            invariant
                *self == *old(self),
                old(self).wf(),
                q == self.waiting(task_type),
                n == q.len(),
                i <= n,
                forall|j: int| 0 <= j < i ==> (#[trigger] q[j]).id != task_id@,
            decreases n - i,
        {
            let same = match task_type {
                TaskType::OCR => str_equal(self.ocr_queue[i].task.id.as_str(), task_id),
                TaskType::Translation => str_equal(self.translation_queue[i].task.id.as_str(), task_id),
            };
            if same {
                proof {
                    assert(first_with_id(q, task_id@, i as int));
                    assert forall|k: int| first_with_id(q, task_id@, k) implies k == i by {
                        if k < i {
                        } else if k > i {
                            assert(q[i as int].id == task_id@);
                        }
                    }
                }
                match task_type {
                    TaskType::OCR => {
                        let _ = self.ocr_queue.remove(i);
                        assert(self.ocr_waiting() =~= q.remove(i as int));
                    },
                    TaskType::Translation => {
                        let _ = self.translation_queue.remove(i);
                        assert(self.translation_waiting() =~= q.remove(i as int));
                    },
                }
                return Ok(());
            }
            i = i + 1;
        }
        Err(string_of("Task not found in queue"))
    }

    /// Cancels a task: a waiting task leaves its queue and is marked
    /// cancelled; a running task has its flag raised. Refused for an unknown
    /// task, a waiting task missing from its queue, or an ended task.
    pub fn cancel_task(&mut self, task_id: &str) -> (r: Result<(), String>)
        requires
            old(self).wf(),
        ensures
            final(self).wf(),
            final(self).active() == old(self).active(),
            final(self).counts() == old(self).counts(),
            final(self).limits() == old(self).limits(),
            final(self).running() == old(self).running(),
            final(self).flagged() == old(self).flagged(),
            !old(self).all().contains_key(task_id@) ==> (r matches Err(e) && e@ == "Task not found"@) && *final(self)
                == *old(self),
            old(self).all().contains_key(task_id@) ==> {
                let t = old(self).all()[task_id@];
                let q = old(self).waiting(t.task_type);
                if t.status == TaskStatus::Queued {
                    if exists|i: int| first_with_id(q, task_id@, i) {
                        let i = choose|i: int| first_with_id(q, task_id@, i);
                        &&& r is Ok
                        &&& final(self).waiting(t.task_type) == q.remove(i)
                        &&& final(self).all().dom() == old(self).all().dom()
                        &&& final(self).all().remove(task_id@) == old(self).all().remove(task_id@)
                        &&& cancelled_task(t, final(self).all()[task_id@])
                    } else {
                        (r matches Err(e) && e@ == "Task not found in queue"@) && final(self).all() == old(self).all()
                            && final(self).waiting(t.task_type) == q
                    }
                } else if t.status == TaskStatus::Processing {
                    r is Ok && *final(self) == *old(self)
                } else {
                    (r matches Err(e) && e@ == "Task is not cancellable"@) && *final(self) == *old(self)
                }
            },
            old(self).all().contains_key(task_id@) ==> {
                let ty = old(self).all()[task_id@].task_type;
                &&& ty == TaskType::OCR ==> final(self).translation_waiting() == old(self).translation_waiting()
                &&& ty == TaskType::Translation ==> final(self).ocr_waiting() == old(self).ocr_waiting()
            },
    {
        let (status, task_type) = match self.all_tasks.get(task_id) {
            Some(t) => (t.status, t.task_type),
            None => {
                return Err(string_of("Task not found"));
            },
        };
        match status {
            TaskStatus::Queued => {
                match self.remove_from_queue(task_id, task_type) {
                    Ok(()) => {},
                    Err(e) => {
                        return Err(e);
                    },
                }
                let mut task = self.all_tasks.remove(task_id).unwrap();
                task.status = TaskStatus::Cancelled;
                task.completed_at = Some(get_timestamp_millis());
                self.all_tasks.insert(string_of(task_id), task);
                assert(self.all().dom() =~= old(self).all().dom());
                assert(self.all().remove(task_id@) =~= old(self).all().remove(task_id@));
                Ok(())
            },
            TaskStatus::Processing => {
                let _ = self.cancellation_manager.cancel(task_id);
                Ok(())
            },
            _ => Err(string_of("Task is not cancellable")),
        }
    }

    /// A copy of a task, if known.
    pub fn get_task_status(&self, task_id: &str) -> (r: Option<BunnyTask>)
        requires
            self.wf(),
        ensures
            match r {
                Some(t) => self.all().contains_key(task_id@) && t@ == self.all()[task_id@],
                None => !self.all().contains_key(task_id@),
            },
    {
        match self.all_tasks.get(task_id) {
            Some(t) => Some(t.clone()),
            None => None,
        }
    }

    /// Copies of all tasks, in the system's own order.
    pub fn get_all_tasks(&self) -> (r: Vec<BunnyTask>)
        requires
            self.wf(),
        ensures
            lists_str_values(r@.map_values(|t: BunnyTask| t@), self.all()),
    {
        let refs = self.all_tasks.value_refs();
        let mut out: Vec<BunnyTask> = Vec::new();
        let mut i: usize = 0;
        while i < refs.len()
            invariant
                i <= refs@.len(),
                out@.len() == i,
                forall|j: int| 0 <= j < i ==> #[trigger] out@[j]@ == refs@[j]@,
            decreases refs@.len() - i,
        {
            out.push(refs[i].clone());
            i = i + 1;
        }
        assert(out@.map_values(|t: BunnyTask| t@) =~= refs@.map_values(|t: &BunnyTask| t@));
        out
    }

    /// Stops the scheduler and raises and forgets every cancellation flag.
    pub fn shutdown(&mut self)
        requires
            old(self).wf(),
        ensures
            final(self).wf(),
            !final(self).running(),
            final(self).flagged() == Set::<Seq<char>>::empty(),
            final(self).all() == old(self).all(),
            final(self).active() == old(self).active(),
            final(self).ocr_waiting() == old(self).ocr_waiting(),
            final(self).translation_waiting() == old(self).translation_waiting(),
            final(self).counts() == old(self).counts(),
    {
        self.scheduler_running = false;
        self.cancellation_manager.clear_all();
    }

    /// The running-task counter of a kind.
    pub open spec fn count(&self, ty: TaskType) -> usize {
        match ty {
            TaskType::OCR => self.counts().0,
            TaskType::Translation => self.counts().1,
        }
    }

    /// The running-task limit of a kind.
    pub open spec fn limit(&self, ty: TaskType) -> usize {
        match ty {
            TaskType::OCR => self.limits().0,
            TaskType::Translation => self.limits().1,
        }
    }

    /// The number of tasks of kind `ty` that scheduling starts: as many
    /// waiting tasks as the limit leaves room for.
    pub open spec fn to_start(&self, ty: TaskType) -> int {
        if self.count(ty) < self.limit(ty) {
            if self.waiting(ty).len() < self.limit(ty) - self.count(ty) {
                self.waiting(ty).len() as int
            } else {
                self.limit(ty) - self.count(ty)
            }
        } else {
            0
        }
    }

    /// Starts waiting tasks of kind `ty`, oldest first, while the limit
    /// allows: each is marked running with a start time, recorded as running
    /// and run by the executor (see `TaskExecutor::execute_task`), which
    /// records its outcome.
    fn schedule(&mut self, ty: TaskType, plugins: &BunnyPluginManager)
        requires
            old(self).wf(),
            plugins.wf(),
        ensures
            final(self).wf(),
            ({
                let k = old(self).to_start(ty);
                let started = task_ids(old(self).waiting(ty).take(k)).to_set();
                &&& final(self).waiting(ty) == old(self).waiting(ty).skip(k)
                &&& final(self).count(ty) == old(self).count(ty) + k
                &&& final(self).active().dom() == old(self).active().dom().union(started)
                &&& final(self).all().dom() == old(self).all().dom().union(started)
                &&& forall|id: Seq<char>| #[trigger]
                    final(self).active().contains_key(id) ==> if started.contains(id) {
                        final(self).active()[id].status == TaskStatus::Processing
                    } else {
                        final(self).active()[id] == old(self).active()[id]
                    }
                &&& forall|id: Seq<char>| #[trigger]
                    final(self).all().contains_key(id) ==> if started.contains(id) {
                        final(self).all()[id].status == TaskStatus::Cancelled || final(self).all()[id].status
                            == TaskStatus::Completed
                    } else {
                        final(self).all()[id] == old(self).all()[id]
                    }
                &&& announced(old(self).notices(), final(self).notices(), old(self).waiting(ty).take(k))
            }),
            ty == TaskType::OCR ==> final(self).translation_waiting() == old(self).translation_waiting()
                && final(self).counts().1 == old(self).counts().1,
            ty == TaskType::Translation ==> final(self).ocr_waiting() == old(self).ocr_waiting()
                && final(self).counts().0 == old(self).counts().0,
            final(self).limits() == old(self).limits(),
            final(self).running() == old(self).running(),
            final(self).flagged() == old(self).flagged(),
    {
        let ghost q0 = old(self).waiting(ty);
        let ghost k = old(self).to_start(ty);
        let mut j: usize = 0;
        assert(old(self).notices().take(old(self).notices().len() as int) =~= old(self).notices());
        loop
            invariant
                self.wf(),
                plugins.wf(),
                old(self).wf(),
                0 <= j <= k,
                k == old(self).to_start(ty),
                q0 == old(self).waiting(ty),
                self.waiting(ty) == q0.skip(j as int),
                self.count(ty) == old(self).count(ty) + j,
                self.limit(ty) == old(self).limit(ty),
                ty == TaskType::OCR ==> self.translation_waiting() == old(self).translation_waiting()
                    && self.counts().1 == old(self).counts().1,
                ty == TaskType::Translation ==> self.ocr_waiting() == old(self).ocr_waiting()
                    && self.counts().0 == old(self).counts().0,
                self.limits() == old(self).limits(),
                self.running() == old(self).running(),
                self.flagged() == old(self).flagged(),
                self.active().dom() == old(self).active().dom().union(task_ids(q0.take(j as int)).to_set()),
                self.all().dom() == old(self).all().dom().union(task_ids(q0.take(j as int)).to_set()),
                forall|id: Seq<char>| #[trigger]
                    self.active().contains_key(id) ==> if task_ids(q0.take(j as int)).to_set().contains(id) {
                        self.active()[id].status == TaskStatus::Processing
                    } else {
                        self.active()[id] == old(self).active()[id]
                    },
                forall|id: Seq<char>| #[trigger]
                    self.all().contains_key(id) ==> if task_ids(q0.take(j as int)).to_set().contains(id) {
                        self.all()[id].status == TaskStatus::Cancelled || self.all()[id].status == TaskStatus::Completed
                    } else {
                        self.all()[id] == old(self).all()[id]
                    },
                announced(old(self).notices(), self.notices(), q0.take(j as int)),
            ensures
                j == k,
            decreases k - j,
        {
            let (count, limit, len) = match ty {
                TaskType::OCR => (self.ocr_active_count, self.max_concurrent_ocr, self.ocr_queue.len()),
                TaskType::Translation => (
                    self.translation_active_count,
                    self.max_concurrent_translation,
                    self.translation_queue.len(),
                ),
            };
            assert(len == self.waiting(ty).len());
            assert(count == self.count(ty) && limit == self.limit(ty));
            if !(count < limit && len > 0) {
                break;
            }
            let ghost before_ids = task_ids(q0.take(j as int)).to_set();
            let ghost pre_all = self.all();
            let ghost pre_active = self.active();
            let queued = match ty {
                TaskType::OCR => self.ocr_queue.pop_front().unwrap(),
                TaskType::Translation => self.translation_queue.pop_front().unwrap(),
            };
            let ghost qv = queued.task@;
            assert(qv == q0[j as int]) by {
                assert(q0.skip(j as int)[0] == q0[j as int]);
            }
            assert(self.waiting(ty) =~= q0.skip(j + 1)) by {
                assert(q0.skip(j + 1) =~= q0.skip(j as int).subrange(1, q0.skip(j as int).len() as int));
            }
            let mut task = queued.task;
            task.status = TaskStatus::Processing;
            task.started_at = Some(get_timestamp_millis());
            let id = task.id.clone();
            self.all_tasks.insert(id.clone(), task.clone());
            let progress = Arc::new(AtomicU64::new(0));
            let token = queued.cancellation_token;
            let active = ActiveTask { task: task.clone(), cancellation_token: token.clone(), progress: progress.clone() };
            self.active_tasks.insert(id, active);
            match ty {
                TaskType::OCR => {
                    self.ocr_active_count = self.ocr_active_count + 1;
                },
                TaskType::Translation => {
                    self.translation_active_count = self.translation_active_count + 1;
                },
            }
            let ghost pre_notices = self.notices();
            let ghost run = task@;
            assert(run == QueuedTaskView { status: TaskStatus::Processing, started_at: run.started_at, ..qv });
            self.executor.execute_task(task, token, progress, &mut self.all_tasks, plugins, &mut self.notices);
            proof {
                let n0 = old(self).notices().len();
                let ended = self.all()[qv.id];
                assert(self.notices() == pre_notices.push(outcome_notice(ended)));
                let s0 = choose|s0: QueuedTaskView|
                    running_task(run, s0) && (cancelled_task(s0, #[trigger] self.all_tasks.map()[run.id])
                        || completed_task(s0, self.all_tasks.map()[run.id], ""@));
                assert(running_task(run, s0));
                assert(ended == self.all_tasks.map()[run.id]);
                if cancelled_task(s0, ended) {
                    assert(outcome_notice(ended) == outcome_notice(QueuedTaskView { status: TaskStatus::Cancelled, ..qv }));
                } else {
                    assert(completed_task(s0, ended, ""@));
                    reveal_strlit("");
                    assert(ended.result == Some(Seq::<char>::empty()));
                    assert(outcome_notice(ended) == outcome_notice(
                        QueuedTaskView { status: TaskStatus::Completed, result: Some(Seq::empty()), ..qv },
                    ));
                }
                assert(announces_end(outcome_notice(ended), qv));
                let nq = q0.take(j + 1);
                assert forall|i: int| 0 <= i < nq.len() implies announces_end(
                    self.notices()[n0 + i],
                    #[trigger] nq[i],
                ) by {
                    if i < j {
                        assert(nq[i] == q0.take(j as int)[i]);
                        assert(self.notices()[n0 + i] == pre_notices[n0 + i]);
                    }
                }
                assert(self.notices().take(n0 as int) =~= pre_notices.take(n0 as int));
                assert(task_ids(q0.take(j + 1)) =~= task_ids(q0.take(j as int)).push(qv.id));
                task_ids(q0.take(j as int)).lemma_push_to_set_commute(qv.id);
                assert(self.active().dom() =~= old(self).active().dom().union(task_ids(q0.take(j + 1)).to_set()));
                assert(self.all().dom() =~= old(self).all().dom().union(task_ids(q0.take(j + 1)).to_set()));
            }
            j = j + 1;
        }
    }

    /// Starts waiting recognition tasks while the limit allows (see
    /// `schedule`).
    pub fn schedule_ocr_tasks(&mut self, plugins: &BunnyPluginManager)
        requires
            old(self).wf(),
            plugins.wf(),
        ensures
            final(self).wf(),
            ({
                let k = old(self).to_start(TaskType::OCR);
                let started = task_ids(old(self).ocr_waiting().take(k)).to_set();
                &&& final(self).ocr_waiting() == old(self).ocr_waiting().skip(k)
                &&& final(self).counts() == (((old(self).counts().0 + k) as usize), old(self).counts().1)
                &&& final(self).active().dom() == old(self).active().dom().union(started)
                &&& final(self).all().dom() == old(self).all().dom().union(started)
                &&& forall|id: Seq<char>| #[trigger]
                    final(self).all().contains_key(id) && !started.contains(id) ==> final(self).all()[id] == old(
                        self,
                    ).all()[id]
                &&& forall|id: Seq<char>| #[trigger]
                    final(self).active().contains_key(id) && !started.contains(id) ==> final(self).active()[id]
                        == old(self).active()[id]
                &&& forall|id: Seq<char>| #[trigger]
                    started.contains(id) ==> final(self).active()[id].status == TaskStatus::Processing && (
                    final(self).all()[id].status == TaskStatus::Cancelled || final(self).all()[id].status
                        == TaskStatus::Completed)
                &&& announced(old(self).notices(), final(self).notices(), old(self).ocr_waiting().take(k))
            }),
            final(self).translation_waiting() == old(self).translation_waiting(),
            final(self).limits() == old(self).limits(),
            final(self).running() == old(self).running(),
            final(self).flagged() == old(self).flagged(),
    {
        self.schedule(TaskType::OCR, plugins);
        proof {
            let k = old(self).to_start(TaskType::OCR);
            let started = task_ids(old(self).ocr_waiting().take(k)).to_set();
            assert forall|id: Seq<char>| #[trigger] started.contains(id) implies self.active()[id].status
                == TaskStatus::Processing && (self.all()[id].status == TaskStatus::Cancelled || self.all()[id].status
                == TaskStatus::Completed) by {
                assert(self.active().dom().contains(id));
                assert(self.all().dom().contains(id));
            }
        }
    }

    /// Starts waiting translation tasks while the limit allows (see
    /// `schedule`).
    pub fn schedule_translation_tasks(&mut self, plugins: &BunnyPluginManager)
        requires
            old(self).wf(),
            plugins.wf(),
        ensures
            final(self).wf(),
            ({
                let k = old(self).to_start(TaskType::Translation);
                let started = task_ids(old(self).translation_waiting().take(k)).to_set();
                &&& final(self).translation_waiting() == old(self).translation_waiting().skip(k)
                &&& final(self).counts() == (old(self).counts().0, ((old(self).counts().1 + k) as usize))
                &&& final(self).active().dom() == old(self).active().dom().union(started)
                &&& final(self).all().dom() == old(self).all().dom().union(started)
                &&& forall|id: Seq<char>| #[trigger]
                    final(self).all().contains_key(id) && !started.contains(id) ==> final(self).all()[id] == old(
                        self,
                    ).all()[id]
                &&& forall|id: Seq<char>| #[trigger]
                    final(self).active().contains_key(id) && !started.contains(id) ==> final(self).active()[id]
                        == old(self).active()[id]
                &&& forall|id: Seq<char>| #[trigger]
                    started.contains(id) ==> final(self).active()[id].status == TaskStatus::Processing && (
                    final(self).all()[id].status == TaskStatus::Cancelled || final(self).all()[id].status
                        == TaskStatus::Completed)
                &&& announced(old(self).notices(), final(self).notices(), old(self).translation_waiting().take(k))
            }),
            final(self).ocr_waiting() == old(self).ocr_waiting(),
            final(self).limits() == old(self).limits(),
            final(self).running() == old(self).running(),
            final(self).flagged() == old(self).flagged(),
    {
        self.schedule(TaskType::Translation, plugins);
        proof {
            let k = old(self).to_start(TaskType::Translation);
            let started = task_ids(old(self).translation_waiting().take(k)).to_set();
            assert forall|id: Seq<char>| #[trigger] started.contains(id) implies self.active()[id].status
                == TaskStatus::Processing && (self.all()[id].status == TaskStatus::Cancelled || self.all()[id].status
                == TaskStatus::Completed) by {
                assert(self.active().dom().contains(id));
                assert(self.all().dom().contains(id));
            }
        }
    }

    /// Drops running tasks that have ended, lowering the running-task
    /// counters (see `cleaned`).
    pub fn cleanup_completed_tasks(&mut self)
        requires
            old(self).wf(),
        ensures
            final(self).wf(),
            exists|ks: Seq<Seq<char>>, dec: Seq<bool>|
                #[trigger] cleaned(
                    old(self).active(),
                    old(self).all(),
                    old(self).counts(),
                    final(self).active(),
                    final(self).counts(),
                    ks,
                    dec,
                ),
            final(self).all() == old(self).all(),
            final(self).ocr_waiting() == old(self).ocr_waiting(),
            final(self).translation_waiting() == old(self).translation_waiting(),
            final(self).limits() == old(self).limits(),
            final(self).running() == old(self).running(),
            final(self).flagged() == old(self).flagged(),
    {
        let refs = self.active_tasks.key_refs();
        let mut keys: Vec<String> = Vec::new();
        let mut m: usize = 0;
        while m < refs.len()
            invariant
                m <= refs@.len(),
                keys@.len() == m,
                forall|j: int| 0 <= j < m ==> #[trigger] keys@[j]@ == refs@[j]@,
            decreases refs@.len() - m,
        {
            keys.push(refs[m].clone());
            m = m + 1;
        }
        let ghost ks = keys@.map_values(|k: String| k@);
        assert(ks =~= refs@.map_values(|k: &String| k@));
        let ghost mut dec: Seq<bool> = Seq::empty();
        let mut i: usize = 0;
        while i < keys.len()
            invariant
                self.wf(),
                old(self).wf(),
                i <= keys@.len(),
                ks == keys@.map_values(|k: String| k@),
                crate::strmap::enumerates_str(ks, old(self).active().dom()),
                dec.len() == i,
                forall|j: int| 0 <= j < i && old(self).all().contains_key(#[trigger] ks[j]) ==> (dec[j] <==> finished(
                    old(self).all()[ks[j]],
                )),
                self.active() == old(self).active().remove_keys(chosen_set(ks.take(i as int), dec)),
                self.counts().0 == wrapped_down(old(self).counts().0, count_chosen(ks.take(i as int), dec, old(self).active(), TaskType::OCR)),
                self.counts().1 == wrapped_down(
                    old(self).counts().1,
                    count_chosen(ks.take(i as int), dec, old(self).active(), TaskType::Translation),
                ),
                self.all() == old(self).all(),
                self.ocr_waiting() == old(self).ocr_waiting(),
                self.translation_waiting() == old(self).translation_waiting(),
                self.limits() == old(self).limits(),
                self.running() == old(self).running(),
                self.flagged() == old(self).flagged(),
            decreases keys@.len() - i,
        {
            let ghost k = ks[i as int];
            proof {
                assert(ks.take(i + 1).drop_last() =~= ks.take(i as int));
                if chosen_set(ks.take(i as int), dec).contains(k) {
                    lemma_chosen_within(ks.take(i as int), dec, k);
                    let j = choose|j: int| 0 <= j < i && ks.take(i as int)[j] == k;
                    assert(ks[j] == ks[i as int]);
                }
                assert(old(self).active().dom().contains(k));
            }
            let ghost pre_counts = self.counts();
            let (should, ty) = match self.active_tasks.get(keys[i].as_str()) {
                Some(at) => {
                    assert(at@ == old(self).active()[k]);
                    let ended = match self.all_tasks.get(keys[i].as_str()) {
                        Some(t) => t.status == TaskStatus::Completed || t.status == TaskStatus::Cancelled || t.status
                            == TaskStatus::Failed,
                        None => ended_by_counters(at),
                    };
                    (ended, at.task.task_type)
                },
                None => {
                    assert(false);
                    (false, TaskType::OCR)
                },
            };
            if should {
                let _ = self.active_tasks.remove(keys[i].as_str());
                match ty {
                    TaskType::OCR => {
                        self.ocr_active_count = if self.ocr_active_count == 0 {
                            usize::MAX
                        } else {
                            self.ocr_active_count - 1
                        };
                    },
                    TaskType::Translation => {
                        self.translation_active_count = if self.translation_active_count == 0 {
                            usize::MAX
                        } else {
                            self.translation_active_count - 1
                        };
                    },
                }
            }
            proof {
                let prev = chosen_set(ks.take(i as int), dec);
                let old_dec = dec;
                dec = dec.push(should);
                assert(dec.drop_last() =~= old_dec);
                assert(ks.take(i + 1).last() == k);
                assert(chosen_set(ks.take(i + 1), dec) == (if should { prev.insert(k) } else { prev }));
                assert(count_chosen(ks.take(i + 1), dec, old(self).active(), TaskType::OCR) == count_chosen(
                    ks.take(i as int),
                    old_dec,
                    old(self).active(),
                    TaskType::OCR,
                ) + (if should && old(self).active()[k].task_type == TaskType::OCR {
                    1nat
                } else {
                    0nat
                }));
                assert(count_chosen(ks.take(i + 1), dec, old(self).active(), TaskType::Translation) == count_chosen(
                    ks.take(i as int),
                    old_dec,
                    old(self).active(),
                    TaskType::Translation,
                ) + (if should && old(self).active()[k].task_type == TaskType::Translation {
                    1nat
                } else {
                    0nat
                }));
                assert(self.active() =~= old(self).active().remove_keys(chosen_set(ks.take(i + 1), dec)));
            }
            i = i + 1;
        }
        proof {
            assert(ks.take(keys@.len() as int) =~= ks);
            assert(cleaned(old(self).active(), old(self).all(), old(self).counts(), self.active(), self.counts(), ks, dec));
        }
    }

    /// Copies of the waiting and running tasks, in the system's own order
    /// (the project is not looked at).
    #[verifier::spinoff_prover]
    pub fn get_queued_tasks(&self, project_id: Option<u32>) -> (r: Vec<BunnyTask>)
        requires
            self.wf(),
        ensures
            lists_str_values(r@.map_values(|t: BunnyTask| t@), in_progress_tasks(self.all())),
    {
        let entries = self.all_tasks.entry_refs();
        let ghost ks = self.all_tasks.keys();
        let ghost m = self.all();
        let ghost mut chosen: Seq<Seq<char>> = Seq::empty();
        let mut out: Vec<BunnyTask> = Vec::new();
        let mut i: usize = 0;
        proof {
            self.all_tasks.lemma_map_entries();
            self.all_tasks.lemma_keys_distinct();
        }
        while i < entries.len()
            invariant
                i <= entries@.len(),
                entries@.len() == ks.len(),
                ks.no_duplicates(),
                forall|k: Seq<char>| #[trigger] m.contains_key(k) <==> ks.contains(k),
                forall|j: int| 0 <= j < entries@.len() ==> #[trigger] entries@[j].0@ == ks[j],
                forall|j: int| 0 <= j < entries@.len() ==> #[trigger] entries@[j].1@ == m[ks[j]],
                chosen.len() == out@.len(),
                chosen.no_duplicates(),
                forall|j: int| 0 <= j < out@.len() ==> #[trigger] out@[j]@ == m[chosen[j]],
                forall|k: Seq<char>| #[trigger] chosen.contains(k) <==> (ks.take(i as int).contains(k) && in_progress(m[k])),
            decreases entries@.len() - i,
        {
            let (k, t) = entries[i];
            let ghost ki = ks[i as int];
            proof {
                assert(ks.take(i + 1) =~= ks.take(i as int).push(ki));
                assert(!ks.take(i as int).contains(ki)) by {
                    if ks.take(i as int).contains(ki) {
                        let j = choose|j: int| 0 <= j < i && #[trigger] ks.take(i as int)[j] == ki;
                        assert(ks[j] == ks[i as int]);
                    }
                }
            }
            if t.status == TaskStatus::Queued || t.status == TaskStatus::Processing {
                out.push(t.clone());
                proof {
                    let before = chosen;
                    assert(in_progress(m[ki]));
                    assert(ks.take(i + 1)[i as int] == ki);
                    assert(!before.contains(ki));
                    chosen = chosen.push(ki);
                    assert forall|x: Seq<char>| #[trigger] chosen.contains(x) <==> (ks.take(i + 1).contains(x)
                        && in_progress(m[x])) by {
                        if chosen.contains(x) {
                            let j = choose|j: int| 0 <= j < chosen.len() && chosen[j] == x;
                            if j < before.len() {
                                assert(before.contains(x));
                            }
                        }
                        if ks.take(i + 1).contains(x) && in_progress(m[x]) {
                            if x != ki {
                                let j = choose|j: int| 0 <= j < i + 1 && #[trigger] ks.take(i + 1)[j] == x;
                                assert(ks.take(i as int)[j] == x);
                                assert(before.contains(x));
                                let t2 = choose|t2: int| 0 <= t2 < before.len() && before[t2] == x;
                                assert(chosen[t2] == x);
                            } else {
                                assert(chosen[chosen.len() - 1] == x);
                            }
                        }
                    }
                }
            } else {
                proof {
                    assert forall|x: Seq<char>| #[trigger] chosen.contains(x) <==> (ks.take(i + 1).contains(x)
                        && in_progress(m[x])) by {
                        if ks.take(i + 1).contains(x) && in_progress(m[x]) {
                            let j = choose|j: int| 0 <= j < i + 1 && #[trigger] ks.take(i + 1)[j] == x;
                            if j < i {
                                assert(ks.take(i as int)[j] == x);
                            }
                        }
                        if chosen.contains(x) {
                            assert(ks.take(i as int).contains(x));
                            let j = choose|j: int| 0 <= j < i && #[trigger] ks.take(i as int)[j] == x;
                            assert(ks.take(i + 1)[j] == x);
                        }
                    }
                }
            }
            i = i + 1;
        }
        proof {
            assert(ks.take(entries@.len() as int) =~= ks);
            let im = in_progress_tasks(m);
            assert forall|k: Seq<char>| #[trigger] im.dom().contains(k) <==> chosen.contains(k) by {
            }
            assert(crate::strmap::enumerates_str(chosen, im.dom()));
            assert forall|j: int| 0 <= j < out@.len() implies out@.map_values(|t: BunnyTask| t@)[j] == im[#[trigger] chosen[j]] by {
                assert(chosen.contains(chosen[j]));
            }
        }
        out
    }

    /// Cancels every waiting and running task (see `cancel_task`), then
    /// empties both queues.
    pub fn clear_all_tasks(&mut self) -> (r: Result<(), String>)
        requires
            old(self).wf(),
        ensures
            final(self).wf(),
            r is Ok,
            final(self).ocr_waiting() == Seq::<QueuedTaskView>::empty(),
            final(self).translation_waiting() == Seq::<QueuedTaskView>::empty(),
            final(self).all().dom() == old(self).all().dom(),
            forall|k: Seq<char>| #[trigger]
                old(self).all().contains_key(k) ==> final(self).all()[k] == old(self).all()[k] || (old(self).all()[k].status
                    == TaskStatus::Queued && cancelled_task(old(self).all()[k], final(self).all()[k])),
            final(self).active() == old(self).active(),
            final(self).counts() == old(self).counts(),
            final(self).limits() == old(self).limits(),
            final(self).running() == old(self).running(),
            final(self).flagged() == old(self).flagged(),
    {
        let mut ids: Vec<String> = Vec::new();
        let entries = self.all_tasks.entry_refs();
        let mut m: usize = 0;
        while m < entries.len()
            invariant
                m <= entries@.len(),
            decreases entries@.len() - m,
        {
            let (k, t) = entries[m];
            if t.status == TaskStatus::Queued || t.status == TaskStatus::Processing {
                ids.push(k.clone());
            }
            m = m + 1;
        }
        let mut i: usize = 0;
        while i < ids.len()
            invariant
                self.wf(),
                old(self).wf(),
                i <= ids@.len(),
                self.all().dom() == old(self).all().dom(),
                forall|k: Seq<char>| #[trigger]
                    old(self).all().contains_key(k) ==> self.all()[k] == old(self).all()[k] || (old(self).all()[k].status
                        == TaskStatus::Queued && cancelled_task(old(self).all()[k], self.all()[k])),
                self.active() == old(self).active(),
                self.counts() == old(self).counts(),
                self.limits() == old(self).limits(),
                self.running() == old(self).running(),
                self.flagged() == old(self).flagged(),
            decreases ids@.len() - i,
        {
            let ghost pre = self.all();
            let ghost id = ids@[i as int]@;
            let _ = self.cancel_task(ids[i].as_str());
            proof {
                assert forall|k: Seq<char>| #[trigger] old(self).all().contains_key(k) implies self.all()[k] == old(
                    self,
                ).all()[k] || (old(self).all()[k].status == TaskStatus::Queued && cancelled_task(
                    old(self).all()[k],
                    self.all()[k],
                )) by {
                    if k != id && pre.contains_key(id) {
                        assert(self.all().remove(id).contains_key(k));
                        assert(self.all().remove(id)[k] == pre.remove(id)[k]);
                    }
                }
            }
            i = i + 1;
        }
        self.ocr_queue.clear();
        self.translation_queue.clear();
        assert(self.ocr_waiting() =~= Seq::<QueuedTaskView>::empty());
        assert(self.translation_waiting() =~= Seq::<QueuedTaskView>::empty());
        Ok(())
    }

    /// One round of the scheduler: start waiting recognition tasks, then
    /// waiting translation tasks, then drop ended running tasks (see
    /// `tick_steps`).
    pub fn scheduler_tick(&mut self, plugins: &BunnyPluginManager)
        requires
            old(self).wf(),
            plugins.wf(),
        ensures
            final(self).wf(),
            exists|s1: TaskQueueSystem, s2: TaskQueueSystem| #[trigger] tick_steps(*old(self), s1, s2, *final(self)),
            final(self).limits() == old(self).limits(),
            final(self).running() == old(self).running(),
            final(self).flagged() == old(self).flagged(),
    {
        self.schedule_ocr_tasks(plugins);
        let ghost s1 = *self;
        self.schedule_translation_tasks(plugins);
        let ghost s2 = *self;
        self.cleanup_completed_tasks();
        assert(tick_steps(*old(self), s1, s2, *self));
    }
}

} // verus!
