use vstd::prelude::*;
use std::collections::{HashMap, VecDeque};
use crate::error::{CoreError, CoreResult};
use crate::ids::ProjectId;
use crate::undo_actions::{UndoRedoAction, UndoRedoActionView};

verus! {

broadcast use vstd::std_specs::hash::group_hash_axioms;

/// How many actions a project's undo history keeps.
pub const MAX_UNDO_HISTORY: usize = 100;

/// One project's history: what can be undone (oldest first) and what can be
/// redone (most recently undone last).
pub struct ProjectUndoRedoStack {
    pub undo_stack: VecDeque<UndoRedoAction>,
    pub redo_stack: VecDeque<UndoRedoAction>,
}

/// The abstract value of one project's history.
pub struct ProjectStackView {
    pub undo: Seq<UndoRedoActionView>,
    pub redo: Seq<UndoRedoActionView>,
}

/// The views of a queue of actions.
pub open spec fn action_views(q: Seq<UndoRedoAction>) -> Seq<UndoRedoActionView> {
    q.map_values(|a: UndoRedoAction| a@)
}

impl View for ProjectUndoRedoStack {
    type V = ProjectStackView;

    open spec fn view(&self) -> ProjectStackView {
        ProjectStackView { undo: action_views(self.undo_stack@), redo: action_views(self.redo_stack@) }
    }
}

/// A history with nothing in it.
pub open spec fn empty_stack() -> ProjectStackView {
    ProjectStackView { undo: Seq::empty(), redo: Seq::empty() }
}

impl ProjectUndoRedoStack {
    /// An empty history.
    pub fn new() -> (s: Self)
        ensures
            s@ == empty_stack(),
    {
        let s = ProjectUndoRedoStack {
            undo_stack: VecDeque::with_capacity(MAX_UNDO_HISTORY),
            redo_stack: VecDeque::with_capacity(MAX_UNDO_HISTORY),
        };
        assert(s@.undo =~= Seq::<UndoRedoActionView>::empty());
        assert(s@.redo =~= Seq::<UndoRedoActionView>::empty());
        s
    }

    /// The identifier of the action that would be undone next, if any.
    pub fn get_current_commit_id(&self) -> (r: Option<uuid::Uuid>)
        ensures
            r == (if self@.undo.len() == 0 {
                None
            } else {
                Some(self@.undo.last().id)
            }),
    {
        let n = self.undo_stack.len();
        if n == 0 {
            None
        } else {
            Some(self.undo_stack[n - 1].id)
        }
    }
}

/// The histories of all projects, and whether an undo or redo is under way
/// (while it is, new actions are not recorded).
pub struct UndoRedoStack {
    pub project_stacks: HashMap<ProjectId, ProjectUndoRedoStack>,
    pub is_undoing: bool,
}

/// The abstract value of the histories.
pub struct UndoRedoStackView {
    pub stacks: Map<ProjectId, ProjectStackView>,
    pub is_undoing: bool,
}

impl View for UndoRedoStack {
    type V = UndoRedoStackView;

    open spec fn view(&self) -> UndoRedoStackView {
        UndoRedoStackView {
            stacks: self.project_stacks@.map_values(|s: ProjectUndoRedoStack| s@),
            is_undoing: self.is_undoing,
        }
    }
}

/// A project's history, empty when it has none yet.
pub open spec fn stack_of(s: UndoRedoStackView, pid: ProjectId) -> ProjectStackView {
    if s.stacks.contains_key(pid) {
        s.stacks[pid]
    } else {
        empty_stack()
    }
}

/// The histories with `pid`'s history replaced.
pub open spec fn with_stack(s: UndoRedoStackView, pid: ProjectId, st: ProjectStackView) -> UndoRedoStackView {
    UndoRedoStackView { stacks: s.stacks.insert(pid, st), ..s }
}

/// The histories after `pid` is given an empty history if it had none.
pub open spec fn ensured(s: UndoRedoStackView, pid: ProjectId) -> UndoRedoStackView {
    with_stack(s, pid, stack_of(s, pid))
}

/// A history after a new action: it goes on top of the undo history (the
/// oldest entry leaves when there would be more than the limit), and the
/// redo history is emptied.
pub open spec fn recorded(st: ProjectStackView, a: UndoRedoActionView) -> ProjectStackView {
    let u = st.undo.push(a);
    ProjectStackView {
        undo: if u.len() > MAX_UNDO_HISTORY {
            u.subrange(1, u.len() as int)
        } else {
            u
        },
        redo: Seq::empty(),
    }
}

/// The histories after `push_action(a)`: unchanged while undoing.
pub open spec fn after_push_action(s: UndoRedoStackView, a: UndoRedoActionView) -> UndoRedoStackView {
    if s.is_undoing {
        s
    } else {
        with_stack(s, a.project_id, recorded(stack_of(s, a.project_id), a))
    }
}

/// The histories after the top of `pid`'s undo history is taken.
pub open spec fn after_pop_undo(s: UndoRedoStackView, pid: ProjectId) -> UndoRedoStackView {
    let st = stack_of(s, pid);
    if st.undo.len() == 0 {
        ensured(s, pid)
    } else {
        with_stack(s, pid, ProjectStackView { undo: st.undo.drop_last(), ..st })
    }
}

/// The histories after the top of `pid`'s redo history is taken.
pub open spec fn after_pop_redo(s: UndoRedoStackView, pid: ProjectId) -> UndoRedoStackView {
    let st = stack_of(s, pid);
    if st.redo.len() == 0 {
        ensured(s, pid)
    } else {
        with_stack(s, pid, ProjectStackView { redo: st.redo.drop_last(), ..st })
    }
}

/// The top of a sequence of actions, if any.
pub open spec fn top(q: Seq<UndoRedoActionView>) -> Option<UndoRedoActionView> {
    if q.len() == 0 {
        None
    } else {
        Some(q.last())
    }
}

/// The histories after `a` goes on top of `pid`'s redo history (nothing
/// happens when `pid` has no history).
pub open spec fn after_push_redo(s: UndoRedoStackView, pid: ProjectId, a: UndoRedoActionView) -> UndoRedoStackView {
    if s.stacks.contains_key(pid) {
        with_stack(s, pid, ProjectStackView { redo: s.stacks[pid].redo.push(a), ..s.stacks[pid] })
    } else {
        s
    }
}

/// The histories after `a` goes on top of `pid`'s undo history, with no
/// limit (nothing happens when `pid` has no history).
pub open spec fn after_push_undo(s: UndoRedoStackView, pid: ProjectId, a: UndoRedoActionView) -> UndoRedoStackView {
    if s.stacks.contains_key(pid) {
        with_stack(s, pid, ProjectStackView { undo: s.stacks[pid].undo.push(a), ..s.stacks[pid] })
    } else {
        s
    }
}

impl UndoRedoStack {
    /// No histories, not undoing.
    pub fn new() -> (s: Self)
        ensures
            s@.stacks == Map::<ProjectId, ProjectStackView>::empty(),
            !s@.is_undoing,
    {
        let s = UndoRedoStack { project_stacks: HashMap::new(), is_undoing: false };
        assert(s@.stacks =~= Map::<ProjectId, ProjectStackView>::empty());
        s
    }

    /// Gives a project an empty history if it has none.
    pub fn get_or_create_project_stack(&mut self, project_id: ProjectId) -> (r: CoreResult<()>)
        ensures
            r == Ok::<(), CoreError>(()),
            final(self)@ == ensured(old(self)@, project_id),
    {
        if !self.project_stacks.contains_key(&project_id) {
            self.project_stacks.insert(project_id, ProjectUndoRedoStack::new());
        }
        assert(self@.stacks =~= ensured(old(self)@, project_id).stacks);
        Ok(())
    }

    /// Records a new action in its project's history, unless an undo or
    /// redo is under way.
    pub fn push_action(&mut self, action: UndoRedoAction) -> (r: CoreResult<()>)
        ensures
            r == Ok::<(), CoreError>(()),
            final(self)@ == after_push_action(old(self)@, action@),
    {
        if self.is_undoing {
            return Ok(());
        }
        let project_id = action.project_id;
        let ghost a = action@;
        let mut st = match self.project_stacks.remove(&project_id) {
            Some(st) => st,
            None => ProjectUndoRedoStack::new(),
        };
        assert(st@ == stack_of(old(self)@, project_id));
        st.redo_stack.clear();
        st.undo_stack.push_back(action);
        if st.undo_stack.len() > MAX_UNDO_HISTORY {
            let _ = st.undo_stack.pop_front();
        }
        assert(st@.undo =~= recorded(stack_of(old(self)@, project_id), a).undo);
        assert(st@.redo =~= recorded(stack_of(old(self)@, project_id), a).redo);
        self.project_stacks.insert(project_id, st);
        assert(self@.stacks =~= after_push_action(old(self)@, a).stacks);
        Ok(())
    }

    /// The action that would be undone next, if any.
    pub fn peek_undo(&self, project_id: ProjectId) -> (r: Option<&UndoRedoAction>)
        ensures
            match r {
                Some(a) => top(stack_of(self@, project_id).undo) == Some(a@),
                None => top(stack_of(self@, project_id).undo) is None,
            },
    {
        match self.project_stacks.get(&project_id) {
            Some(s) => {
                let n = s.undo_stack.len();
                if n == 0 {
                    None
                } else {
                    Some(&s.undo_stack[n - 1])
                }
            },
            None => None,
        }
    }

    /// The action that would be redone next, if any.
    pub fn peek_redo(&self, project_id: ProjectId) -> (r: Option<&UndoRedoAction>)
        ensures
            match r {
                Some(a) => top(stack_of(self@, project_id).redo) == Some(a@),
                None => top(stack_of(self@, project_id).redo) is None,
            },
    {
        match self.project_stacks.get(&project_id) {
            Some(s) => {
                let n = s.redo_stack.len();
                if n == 0 {
                    None
                } else {
                    Some(&s.redo_stack[n - 1])
                }
            },
            None => None,
        }
    }

    /// Whether the project has something to undo.
    pub fn can_undo(&self, project_id: ProjectId) -> (r: CoreResult<bool>)
        ensures
            r == Ok::<bool, CoreError>(stack_of(self@, project_id).undo.len() > 0),
    {
        match self.project_stacks.get(&project_id) {
            Some(s) => Ok(s.undo_stack.len() != 0),
            None => Ok(false),
        }
    }

    /// Whether the project has something to redo.
    pub fn can_redo(&self, project_id: ProjectId) -> (r: CoreResult<bool>)
        ensures
            r == Ok::<bool, CoreError>(stack_of(self@, project_id).redo.len() > 0),
    {
        match self.project_stacks.get(&project_id) {
            Some(s) => Ok(s.redo_stack.len() != 0),
            None => Ok(false),
        }
    }

    /// Takes the action that would be undone next (the project gets a
    /// history if it had none).
    pub fn pop_undo_action(&mut self, project_id: ProjectId) -> (r: CoreResult<Option<UndoRedoAction>>)
        ensures
            final(self)@ == after_pop_undo(old(self)@, project_id),
            match r {
                Ok(Some(a)) => top(stack_of(old(self)@, project_id).undo) == Some(a@),
                Ok(None) => top(stack_of(old(self)@, project_id).undo) is None,
                Err(_) => false,
            },
    {
        let mut st = match self.project_stacks.remove(&project_id) {
            Some(st) => st,
            None => ProjectUndoRedoStack::new(),
        };
        assert(st@ == stack_of(old(self)@, project_id));
        let a = st.undo_stack.pop_back();
        assert(st@.undo =~= (if stack_of(old(self)@, project_id).undo.len() == 0 {
            stack_of(old(self)@, project_id).undo
        } else {
            stack_of(old(self)@, project_id).undo.drop_last()
        }));
        self.project_stacks.insert(project_id, st);
        assert(self@.stacks =~= after_pop_undo(old(self)@, project_id).stacks);
        Ok(a)
    }

    /// Puts an action on top of the project's redo history (nothing happens
    /// when the project has no history).
    pub fn push_redo_action(&mut self, project_id: ProjectId, action: UndoRedoAction) -> (r: CoreResult<()>)
        ensures
            r == Ok::<(), CoreError>(()),
            final(self)@ == after_push_redo(old(self)@, project_id, action@),
    {
        let ghost a = action@;
        match self.project_stacks.remove(&project_id) {
            Some(mut st) => {
                st.redo_stack.push_back(action);
                assert(st@.redo =~= old(self)@.stacks[project_id].redo.push(a));
                assert(st@.undo =~= old(self)@.stacks[project_id].undo);
                self.project_stacks.insert(project_id, st);
                assert(self@.stacks =~= after_push_redo(old(self)@, project_id, a).stacks);
            },
            None => {
                assert(self@.stacks =~= old(self)@.stacks);
            },
        }
        Ok(())
    }

    /// Takes the action that would be redone next (the project gets a
    /// history if it had none).
    pub fn pop_redo_action(&mut self, project_id: ProjectId) -> (r: CoreResult<Option<UndoRedoAction>>)
        ensures
            final(self)@ == after_pop_redo(old(self)@, project_id),
            match r {
                Ok(Some(a)) => top(stack_of(old(self)@, project_id).redo) == Some(a@),
                Ok(None) => top(stack_of(old(self)@, project_id).redo) is None,
                Err(_) => false,
            },
    {
        let mut st = match self.project_stacks.remove(&project_id) {
            Some(st) => st,
            None => ProjectUndoRedoStack::new(),
        };
        assert(st@ == stack_of(old(self)@, project_id));
        let a = st.redo_stack.pop_back();
        assert(st@.redo =~= (if stack_of(old(self)@, project_id).redo.len() == 0 {
            stack_of(old(self)@, project_id).redo
        } else {
            stack_of(old(self)@, project_id).redo.drop_last()
        }));
        self.project_stacks.insert(project_id, st);
        assert(self@.stacks =~= after_pop_redo(old(self)@, project_id).stacks);
        Ok(a)
    }

    /// Puts an action on top of the project's undo history, without the
    /// limit (nothing happens when the project has no history).
    pub fn push_to_undo_stack(&mut self, project_id: ProjectId, action: UndoRedoAction) -> (r: CoreResult<()>)
        ensures
            r == Ok::<(), CoreError>(()),
            final(self)@ == after_push_undo(old(self)@, project_id, action@),
    {
        let ghost a = action@;
        match self.project_stacks.remove(&project_id) {
            Some(mut st) => {
                st.undo_stack.push_back(action);
                assert(st@.undo =~= old(self)@.stacks[project_id].undo.push(a));
                assert(st@.redo =~= old(self)@.stacks[project_id].redo);
                self.project_stacks.insert(project_id, st);
                assert(self@.stacks =~= after_push_undo(old(self)@, project_id, a).stacks);
            },
            None => {
                assert(self@.stacks =~= old(self)@.stacks);
            },
        }
        Ok(())
    }

    /// Marks whether an undo or redo is under way.
    pub fn set_undoing(&mut self, undoing: bool) -> (r: CoreResult<()>)
        ensures
            r == Ok::<(), CoreError>(()),
            final(self)@ == (UndoRedoStackView { is_undoing: undoing, ..old(self)@ }),
    {
        self.is_undoing = undoing;
        Ok(())
    }

    /// Empties a project's history (if it has one).
    pub fn clear(&mut self, project_id: ProjectId) -> (r: CoreResult<()>)
        ensures
            r == Ok::<(), CoreError>(()),
            final(self)@ == (if old(self)@.stacks.contains_key(project_id) {
                with_stack(old(self)@, project_id, empty_stack())
            } else {
                old(self)@
            }),
    {
        match self.project_stacks.remove(&project_id) {
            Some(mut st) => {
                st.undo_stack.clear();
                st.redo_stack.clear();
                assert(st@.undo =~= Seq::<UndoRedoActionView>::empty());
                assert(st@.redo =~= Seq::<UndoRedoActionView>::empty());
                self.project_stacks.insert(project_id, st);
                assert(self@.stacks =~= with_stack(old(self)@, project_id, empty_stack()).stacks);
            },
            None => {
                assert(self@.stacks =~= old(self)@.stacks);
            },
        }
        Ok(())
    }

    /// Forgets every project's history.
    pub fn clear_all(&mut self) -> (r: CoreResult<()>)
        ensures
            r == Ok::<(), CoreError>(()),
            final(self)@ == (UndoRedoStackView {
                stacks: Map::<ProjectId, ProjectStackView>::empty(),
                ..old(self)@
            }),
    {
        self.project_stacks.clear();
        assert(self@.stacks =~= Map::<ProjectId, ProjectStackView>::empty());
        Ok(())
    }

    /// The identifier of the action the project would undo next, if any.
    pub fn get_current_commit_id(&self, project_id: ProjectId) -> (r: CoreResult<Option<uuid::Uuid>>)
        ensures
            r == Ok::<Option<uuid::Uuid>, CoreError>(
                match top(stack_of(self@, project_id).undo) {
                    Some(a) => Some(a.id),
                    None => None,
                },
            ),
    {
        match self.project_stacks.get(&project_id) {
            Some(s) => Ok(s.get_current_commit_id()),
            None => Ok(None),
        }
    }
}

/// A recorded action is what an undo takes next: right after
/// `push_action(a)` outside an undo, `a` is on top of its project's undo
/// history, and nothing is left to redo.
pub proof fn law_recorded_action_is_undone_next(s: UndoRedoStackView, a: UndoRedoActionView)
    requires
        !s.is_undoing,
    ensures
        top(stack_of(after_push_action(s, a), a.project_id).undo) == Some(a),
        stack_of(after_push_action(s, a), a.project_id).redo.len() == 0,
{
}

/// Recording outside an undo appends the action to its project's undo
/// history, dropping the oldest entry when the history is full, and empties
/// that project's redo history.
pub proof fn law_recording_appends(s: UndoRedoStackView, a: UndoRedoActionView)
    requires
        !s.is_undoing,
        stack_of(s, a.project_id).undo.len() <= MAX_UNDO_HISTORY,
    ensures
        ({
            let u = stack_of(s, a.project_id).undo;
            let n = stack_of(after_push_action(s, a), a.project_id);
            &&& u.len() < MAX_UNDO_HISTORY ==> n.undo == u.push(a)
            &&& u.len() == MAX_UNDO_HISTORY ==> n.undo == u.subrange(1, u.len() as int).push(a)
            &&& n.redo == Seq::<UndoRedoActionView>::empty()
        }),
{
    let u = stack_of(s, a.project_id).undo;
    if u.len() == MAX_UNDO_HISTORY {
        assert(u.push(a).subrange(1, u.len() as int + 1) =~= u.subrange(1, u.len() as int).push(a));
    }
}

/// While an undo or redo is under way, recording changes nothing.
pub proof fn law_no_recording_while_undoing(s: UndoRedoStackView, a: UndoRedoActionView)
    requires
        s.is_undoing,
    ensures
        after_push_action(s, a) == s,
{
}

/// A project's undo history never grows past the limit by recording.
pub proof fn law_history_is_bounded(s: UndoRedoStackView, a: UndoRedoActionView)
    requires
        stack_of(s, a.project_id).undo.len() <= MAX_UNDO_HISTORY,
    ensures
        stack_of(after_push_action(s, a), a.project_id).undo.len() <= MAX_UNDO_HISTORY,
{
}

/// Recording leaves the other projects' histories alone.
pub proof fn law_recording_is_per_project(s: UndoRedoStackView, a: UndoRedoActionView, other: ProjectId)
    requires
        other != a.project_id,
    ensures
        stack_of(after_push_action(s, a), other) == stack_of(s, other),
{
}

/// Putting an action on the redo history and taking it back returns that
/// action and restores the histories.
pub proof fn law_push_redo_then_pop(s: UndoRedoStackView, pid: ProjectId, a: UndoRedoActionView)
    requires
        s.stacks.contains_key(pid),
    ensures
        top(stack_of(after_push_redo(s, pid, a), pid).redo) == Some(a),
        after_pop_redo(after_push_redo(s, pid, a), pid) == s,
{
    let st = s.stacks[pid];
    assert(st.redo.push(a).drop_last() =~= st.redo);
    assert(after_pop_redo(after_push_redo(s, pid, a), pid).stacks =~= s.stacks);
}

/// Putting an action on the undo history and taking it back returns that
/// action and restores the histories.
pub proof fn law_push_undo_then_pop(s: UndoRedoStackView, pid: ProjectId, a: UndoRedoActionView)
    requires
        s.stacks.contains_key(pid),
    ensures
        top(stack_of(after_push_undo(s, pid, a), pid).undo) == Some(a),
        after_pop_undo(after_push_undo(s, pid, a), pid) == s,
{
    let st = s.stacks[pid];
    assert(st.undo.push(a).drop_last() =~= st.undo);
    assert(after_pop_undo(after_push_undo(s, pid, a), pid).stacks =~= s.stacks);
}

} // verus!
