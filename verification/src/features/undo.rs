use std::collections::VecDeque;
use vstd::prelude::*;

verus! {

/// One edit inside an undoable step.
#[derive(Debug, Clone)]
pub enum EditAction {
    Insert { position: usize, text: String },
    Delete { position: usize, text: String },
    Replace { position: usize, old_text: String, new_text: String },
}

/// What an edit says, with its texts as sequences of chars.
pub enum EditActionView {
    Insert { position: usize, text: Seq<char> },
    Delete { position: usize, text: Seq<char> },
    Replace { position: usize, old_text: Seq<char>, new_text: Seq<char> },
}

impl View for EditAction {
    type V = EditActionView;

    open spec fn view(&self) -> EditActionView {
        match self {
            EditAction::Insert { position, text } => EditActionView::Insert {
                position: *position,
                text: text@,
            },
            EditAction::Delete { position, text } => EditActionView::Delete {
                position: *position,
                text: text@,
            },
            EditAction::Replace { position, old_text, new_text } => EditActionView::Replace {
                position: *position,
                old_text: old_text@,
                new_text: new_text@,
            },
        }
    }
}

/// An undoable step: its edits and where the caret was.
#[derive(Debug, Clone)]
pub struct UndoState {
    pub actions: Vec<EditAction>,
    pub cursor_position: usize,
}

pub struct UndoStateView {
    pub actions: Seq<EditActionView>,
    pub cursor_position: usize,
}

impl View for UndoState {
    type V = UndoStateView;

    open spec fn view(&self) -> UndoStateView {
        UndoStateView {
            actions: self.actions@.map_values(|a: EditAction| a@),
            cursor_position: self.cursor_position,
        }
    }
}

/// The edit that undoes `a`: an insert becomes a delete of its text, a delete
/// an insert, and a replace swaps its old and new text.
pub open spec fn inverse(a: EditActionView) -> EditActionView {
    match a {
        EditActionView::Insert { position, text } => EditActionView::Delete { position, text },
        EditActionView::Delete { position, text } => EditActionView::Insert { position, text },
        EditActionView::Replace { position, old_text, new_text } => EditActionView::Replace {
            position,
            old_text: new_text,
            new_text: old_text,
        },
    }
}

fn copy_action(a: &EditAction) -> (r: EditAction)
    ensures
        r@ == a@,
{
    match a {
        EditAction::Insert { position, text } => EditAction::Insert {
            position: *position,
            text: text.clone(),
        },
        EditAction::Delete { position, text } => EditAction::Delete {
            position: *position,
            text: text.clone(),
        },
        EditAction::Replace { position, old_text, new_text } => EditAction::Replace {
            position: *position,
            old_text: old_text.clone(),
            new_text: new_text.clone(),
        },
    }
}

fn copy_state(s: &UndoState) -> (r: UndoState)
    ensures
        r@ == s@,
{
    let mut actions: Vec<EditAction> = Vec::new();
    let mut i: usize = 0;
    while i < s.actions.len()
        invariant
            i <= s.actions@.len(),
            actions@.len() == i,
            forall|k: int| 0 <= k < i ==> #[trigger] actions@[k]@ == s.actions@[k]@,
        decreases s.actions@.len() - i,
    {
        actions.push(copy_action(&s.actions[i]));
        i = i + 1;
    }
    let r = UndoState { actions, cursor_position: s.cursor_position };
    assert(r@.actions =~= s@.actions);
    r
}

/// The views of a stack of steps.
pub open spec fn states_view(s: Seq<UndoState>) -> Seq<UndoStateView> {
    s.map_values(|st: UndoState| st@)
}

/// An undo history that keeps at most `max_history` steps.
pub struct UndoManager {
    undo_stack: VecDeque<UndoState>,
    redo_stack: VecDeque<UndoState>,
    max_history: usize,
}

/// The undo stack, the redo stack (tops last) and the bound on the history.
pub struct UndoManagerView {
    pub undo: Seq<UndoStateView>,
    pub redo: Seq<UndoStateView>,
    pub max_history: usize,
}

impl View for UndoManager {
    type V = UndoManagerView;

    closed spec fn view(&self) -> UndoManagerView {
        UndoManagerView {
            undo: states_view(self.undo_stack@),
            redo: states_view(self.redo_stack@),
            max_history: self.max_history,
        }
    }
}

/// The history holds no more steps, undone ones included, than its bound.
pub open spec fn within_bound(m: UndoManagerView) -> bool {
    m.undo.len() + m.redo.len() <= m.max_history
}

/// Recording a step: it goes on the undo stack, the oldest step goes when
/// there are more than `max_history`, and the redo stack empties.
pub open spec fn pushed(m: UndoManagerView, s: UndoStateView) -> UndoManagerView {
    let u = m.undo.push(s);
    UndoManagerView {
        undo: if u.len() > m.max_history {
            u.drop_first()
        } else {
            u
        },
        redo: Seq::<UndoStateView>::empty(),
        max_history: m.max_history,
    }
}

/// Undo: the newest step moves from the undo stack to the redo stack and is
/// handed out.
pub open spec fn undone(m: UndoManagerView) -> (UndoManagerView, Option<UndoStateView>) {
    if m.undo.len() > 0 {
        (
            UndoManagerView { undo: m.undo.drop_last(), redo: m.redo.push(m.undo.last()), ..m },
            Some(m.undo.last()),
        )
    } else {
        (m, None)
    }
}

/// Redo: the newest undone step moves back to the undo stack and is handed out.
pub open spec fn redone(m: UndoManagerView) -> (UndoManagerView, Option<UndoStateView>) {
    if m.redo.len() > 0 {
        (
            UndoManagerView { undo: m.undo.push(m.redo.last()), redo: m.redo.drop_last(), ..m },
            Some(m.redo.last()),
        )
    } else {
        (m, None)
    }
}

/// The view of a step that may be missing.
pub open spec fn opt_state_view(s: Option<UndoState>) -> Option<UndoStateView> {
    match s {
        Some(x) => Some(x@),
        None => None,
    }
}

impl Default for UndoManager {
    fn default() -> (m: Self)
        ensures
            m@ == (UndoManagerView {
                undo: Seq::<UndoStateView>::empty(),
                redo: Seq::<UndoStateView>::empty(),
                max_history: 100,
            }),
    {
        Self::new(100)
    }
}

impl UndoManager {
    pub fn new(max_history: usize) -> (m: Self)
        ensures
            m@ == (UndoManagerView {
                undo: Seq::<UndoStateView>::empty(),
                redo: Seq::<UndoStateView>::empty(),
                max_history,
            }),
    {
        let m = Self { undo_stack: VecDeque::new(), redo_stack: VecDeque::new(), max_history };
        assert(states_view(m.undo_stack@) =~= Seq::<UndoStateView>::empty());
        assert(states_view(m.redo_stack@) =~= Seq::<UndoStateView>::empty());
        m
    }

    /// Records a step.
    pub fn push(&mut self, state: UndoState)
        ensures
            final(self)@ == pushed(old(self)@, state@),
            within_bound(old(self)@) ==> within_bound(final(self)@),
    {
        let ghost sv = state@;
        self.undo_stack.push_back(state);
        proof {
            assert(states_view(self.undo_stack@) =~= old(self)@.undo.push(sv));
        }
        if self.undo_stack.len() > self.max_history {
            let ghost before = self.undo_stack@;
            self.undo_stack.pop_front();
            proof {
                assert(states_view(self.undo_stack@) =~= states_view(before).drop_first());
            }
        }
        self.redo_stack.clear();
        proof {
            assert(states_view(self.redo_stack@) =~= Seq::<UndoStateView>::empty());
        }
    }

    pub fn can_undo(&self) -> (r: bool)
        ensures
            r == (self@.undo.len() > 0),
    {
        self.undo_stack.len() != 0
    }

    pub fn can_redo(&self) -> (r: bool)
        ensures
            r == (self@.redo.len() > 0),
    {
        self.redo_stack.len() != 0
    }

    /// The number of steps that can be undone.
    pub fn undo_count(&self) -> (n: usize)
        ensures
            n == self@.undo.len(),
    {
        self.undo_stack.len()
    }

    pub fn undo(&mut self) -> (r: Option<UndoState>)
        ensures
            (final(self)@, opt_state_view(r)) == undone(old(self)@),
            within_bound(old(self)@) ==> within_bound(final(self)@),
    {
        if let Some(state) = self.undo_stack.pop_back() {
            self.redo_stack.push_back(copy_state(&state));
            proof {
                assert(states_view(self.undo_stack@) =~= old(self)@.undo.drop_last());
                assert(states_view(self.redo_stack@) =~= old(self)@.redo.push(state@));
            }
            Some(state)
        } else {
            None
        }
    }

    pub fn redo(&mut self) -> (r: Option<UndoState>)
        ensures
            (final(self)@, opt_state_view(r)) == redone(old(self)@),
            within_bound(old(self)@) ==> within_bound(final(self)@),
    {
        if let Some(state) = self.redo_stack.pop_back() {
            self.undo_stack.push_back(copy_state(&state));
            proof {
                assert(states_view(self.redo_stack@) =~= old(self)@.redo.drop_last());
                assert(states_view(self.undo_stack@) =~= old(self)@.undo.push(state@));
            }
            Some(state)
        } else {
            None
        }
    }

    pub fn clear(&mut self)
        ensures
            final(self)@ == (UndoManagerView {
                undo: Seq::<UndoStateView>::empty(),
                redo: Seq::<UndoStateView>::empty(),
                ..old(self)@
            }),
    {
        self.undo_stack.clear();
        self.redo_stack.clear();
        assert(states_view(self.undo_stack@) =~= Seq::<UndoStateView>::empty());
        assert(states_view(self.redo_stack@) =~= Seq::<UndoStateView>::empty());
    }

    /// The edit that undoes `action`.
    pub fn get_inverse_action(action: &EditAction) -> (r: EditAction)
        ensures
            r@ == inverse(action@),
    {
        match action {
            EditAction::Insert { position, text } => EditAction::Delete {
                position: *position,
                text: text.clone(),
            },
            EditAction::Delete { position, text } => EditAction::Insert {
                position: *position,
                text: text.clone(),
            },
            EditAction::Replace { position, old_text, new_text } => EditAction::Replace {
                position: *position,
                old_text: new_text.clone(),
                new_text: old_text.clone(),
            },
        }
    }
}

/// Inverting an edit twice gives it back.
pub proof fn law_inverse_involution(a: EditActionView)
    ensures
        inverse(inverse(a)) == a,
{
}

/// Undo followed by redo gives the history back and hands out the same step.
pub proof fn law_undo_then_redo(m: UndoManagerView)
    requires
        m.undo.len() > 0,
    ensures
        ({
            let (m1, u) = undone(m);
            let (m2, r) = redone(m1);
            m2 == m && u == r && u is Some
        }),
{
    let (m1, u) = undone(m);
    assert(m1.redo.drop_last() =~= m.redo);
    assert(m1.undo.push(m1.redo.last()) =~= m.undo);
}

/// Redo followed by undo gives the history back and hands out the same step.
pub proof fn law_redo_then_undo(m: UndoManagerView)
    requires
        m.redo.len() > 0,
    ensures
        ({
            let (m1, r) = redone(m);
            let (m2, u) = undone(m1);
            m2 == m && u == r && r is Some
        }),
{
    let (m1, r) = redone(m);
    assert(m1.undo.drop_last() =~= m.undo);
    assert(m1.redo.push(m1.undo.last()) =~= m.redo);
}

/// A new step empties the redo stack, and the step is what undo hands out
/// next whenever the bound allows a step at all.
pub proof fn law_push_then_undo(m: UndoManagerView, s: UndoStateView)
    requires
        m.max_history > 0,
    ensures
        pushed(m, s).redo.len() == 0,
        undone(pushed(m, s)).1 == Some(s),
{
}

} // verus!
