use vstd::prelude::*;
use std::sync::Arc;
use std::sync::atomic::{AtomicBool, Ordering};
use crate::strmap::StrMap;

verus! {

/// A shared cancellation flag, as stored in the manager.
struct TokenSlot {
    flag: Arc<AtomicBool>,
}

impl View for TokenSlot {
    type V = ();

    open spec fn view(&self) -> () {
        ()
    }
}

/// Cancellation flags of running tasks, keyed by task identifier. Each flag
/// is shared with the task it belongs to.
pub struct CancellationManager {
    tokens: StrMap<TokenSlot>,
}

impl CancellationManager {
    /// The tasks that have a flag.
    pub closed spec fn task_ids(&self) -> Set<Seq<char>> {
        self.tokens.map().dom()
    }

    /// The manager's internal consistency.
    pub closed spec fn wf(&self) -> bool {
        self.tokens.wf()
    }

    /// A manager without flags.
    pub fn new() -> (m: Self)
        ensures
            m.wf(),
            m.task_ids() == Set::<Seq<char>>::empty(),
    {
        let m = CancellationManager { tokens: StrMap::new() };
        assert(m.task_ids() =~= Set::<Seq<char>>::empty());
        m
    }

    /// Creates a fresh flag for a task (replacing any earlier one) and hands
    /// out a shared handle to it.
    pub fn create_token(&mut self, task_id: String) -> (token: Arc<AtomicBool>)
        requires
            old(self).wf(),
        ensures
            final(self).wf(),
            final(self).task_ids() == old(self).task_ids().insert(task_id@),
    {
        let token = Arc::new(AtomicBool::new(false));
        let shared = token.clone();
        self.tokens.insert(task_id, TokenSlot { flag: shared });
        token
    }

    /// Raises the flag of a task; whether the task had one.
    pub fn cancel(&self, task_id: &str) -> (r: bool)
        requires
            self.wf(),
        ensures
            r == self.task_ids().contains(task_id@),
    {
        match self.tokens.get(task_id) {
            Some(slot) => {
                slot.flag.store(true, Ordering::SeqCst);
                true
            },
            None => false,
        }
    }

    /// Raises every flag, then forgets them all.
    pub fn clear_all(&mut self)
        requires
            old(self).wf(),
        ensures
            final(self).wf(),
            final(self).task_ids() == Set::<Seq<char>>::empty(),
    {
        let slots = self.tokens.value_refs();
        let mut i: usize = 0;
        while i < slots.len()
            invariant
                i <= slots@.len(),
            decreases slots@.len() - i,
        {
            slots[i].flag.store(true, Ordering::SeqCst);
            i = i + 1;
        }
        self.tokens.clear();
        assert(self.task_ids() =~= Set::<Seq<char>>::empty());
    }
}

} // verus!
