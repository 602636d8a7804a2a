use std::collections::VecDeque;
use vstd::prelude::*;

verus! {

/// An edit of a buffer: `text` inserted at, or deleted from, char index
/// `position`.
#[derive(Clone, Debug)]
pub enum Operation {
    Insert { position: usize, text: String },
    Delete { position: usize, text: String },
}

/// What an edit says, with its text as a sequence of chars.
pub enum OpView {
    Insert { position: usize, text: Seq<char> },
    Delete { position: usize, text: Seq<char> },
}

impl View for Operation {
    type V = OpView;

    open spec fn view(&self) -> OpView {
        match self {
            Operation::Insert { position, text } => OpView::Insert {
                position: *position,
                text: text@,
            },
            Operation::Delete { position, text } => OpView::Delete {
                position: *position,
                text: text@,
            },
        }
    }
}

/// The view of an edit that may be missing.
pub open spec fn opt_op_view(op: Option<Operation>) -> Option<OpView> {
    match op {
        Some(o) => Some(o@),
        None => None,
    }
}

/// The edit that undoes `op`: an insert becomes a delete of the same text at
/// the same place, and the other way round.
pub open spec fn reversed(op: OpView) -> OpView {
    match op {
        OpView::Insert { position, text } => OpView::Delete { position, text },
        OpView::Delete { position, text } => OpView::Insert { position, text },
    }
}

fn reverse_of(op: &Operation) -> (r: Operation)
    ensures
        r@ == reversed(op@),
{
    match op {
        Operation::Insert { position, text } => Operation::Delete {
            position: *position,
            text: text.clone(),
        },
        Operation::Delete { position, text } => Operation::Insert {
            position: *position,
            text: text.clone(),
        },
    }
}

/// The undo and redo stacks (tops last).
pub type HistoryState = (Seq<OpView>, Seq<OpView>);

/// Undo: the top of the undo stack comes off and is handed out, and its
/// reverse goes on the redo stack; nothing changes when there is nothing to
/// undo.
pub open spec fn undo_step(h: HistoryState) -> (HistoryState, Option<OpView>) {
    if h.0.len() > 0 {
        ((h.0.drop_last(), h.1.push(reversed(h.0.last()))), Some(h.0.last()))
    } else {
        (h, None)
    }
}

/// Redo: the top of the redo stack comes off and is handed out, and its
/// reverse goes on the undo stack; nothing changes when there is nothing to
/// redo.
pub open spec fn redo_step(h: HistoryState) -> (HistoryState, Option<OpView>) {
    if h.1.len() > 0 {
        ((h.0.push(reversed(h.1.last())), h.1.drop_last()), Some(h.1.last()))
    } else {
        (h, None)
    }
}

/// Recording a new edit: it goes on the undo stack and the redo stack empties.
pub open spec fn recorded(h: HistoryState, op: OpView) -> HistoryState {
    (h.0.push(op), Seq::<OpView>::empty())
}

/// The views of a stack of edits.
pub open spec fn stack_view(s: Seq<Operation>) -> Seq<OpView> {
    s.map_values(|o: Operation| o@)
}

/// The history of the edits made to a buffer, for undo and redo.
pub struct OperationHistory {
    undo_stack: VecDeque<Operation>,
    redo_stack: VecDeque<Operation>,
}

impl View for OperationHistory {
    type V = HistoryState;

    closed spec fn view(&self) -> HistoryState {
        (stack_view(self.undo_stack@), stack_view(self.redo_stack@))
    }
}

impl OperationHistory {
    pub fn new() -> (h: Self)
        ensures
            h@ == (Seq::<OpView>::empty(), Seq::<OpView>::empty()),
    {
        proof {
            assert(stack_view(Seq::<Operation>::empty()) =~= Seq::<OpView>::empty());
        }
        Self { undo_stack: VecDeque::with_capacity(1000), redo_stack: VecDeque::with_capacity(1000) }
    }

    /// Records a new edit; the redo stack is emptied.
    pub fn push(&mut self, operation: Operation)
        ensures
            final(self)@ == recorded(old(self)@, operation@),
    {
        let ghost v = operation@;
        self.undo_stack.push_back(operation);
        self.redo_stack.clear();
        proof {
            assert(stack_view(self.undo_stack@) =~= old(self)@.0.push(v));
            assert(stack_view(self.redo_stack@) =~= Seq::<OpView>::empty());
        }
    }

    pub fn undo(&mut self) -> (r: Option<Operation>)
        ensures
            (final(self)@, opt_op_view(r)) == undo_step(old(self)@),
    {
        if let Some(op) = self.undo_stack.pop_back() {
            let reverse = reverse_of(&op);
            self.redo_stack.push_back(reverse);
            proof {
                assert(stack_view(self.undo_stack@) =~= old(self)@.0.drop_last());
                assert(stack_view(self.redo_stack@) =~= old(self)@.1.push(reversed(op@)));
            }
            Some(op)
        } else {
            None
        }
    }

    pub fn redo(&mut self) -> (r: Option<Operation>)
        ensures
            (final(self)@, opt_op_view(r)) == redo_step(old(self)@),
    {
        if let Some(op) = self.redo_stack.pop_back() {
            let reverse = reverse_of(&op);
            self.undo_stack.push_back(reverse);
            proof {
                assert(stack_view(self.redo_stack@) =~= old(self)@.1.drop_last());
                assert(stack_view(self.undo_stack@) =~= old(self)@.0.push(reversed(op@)));
            }
            Some(op)
        } else {
            None
        }
    }

    pub fn can_undo(&self) -> (r: bool)
        ensures
            r == (self@.0.len() > 0),
    {
        self.undo_stack.len() != 0
    }

    pub fn can_redo(&self) -> (r: bool)
        ensures
            r == (self@.1.len() > 0),
    {
        self.redo_stack.len() != 0
    }

    pub fn clear(&mut self)
        ensures
            final(self)@ == (Seq::<OpView>::empty(), Seq::<OpView>::empty()),
    {
        self.undo_stack.clear();
        self.redo_stack.clear();
        proof {
            assert(stack_view(self.undo_stack@) =~= Seq::<OpView>::empty());
            assert(stack_view(self.redo_stack@) =~= Seq::<OpView>::empty());
        }
    }
}

impl Default for OperationHistory {
    fn default() -> (h: Self)
        ensures
            h@ == (Seq::<OpView>::empty(), Seq::<OpView>::empty()),
    {
        Self::new()
    }
}

/// Reversing an edit twice gives it back.
pub proof fn law_reversed_involution(op: OpView)
    ensures
        reversed(reversed(op)) == op,
{
}

/// Undo followed by redo gives the history back, and redo hands out the
/// reverse of what undo handed out.
pub proof fn law_undo_then_redo(h: HistoryState)
    requires
        h.0.len() > 0,
    ensures
        ({
            let (h1, undone) = undo_step(h);
            let (h2, redone) = redo_step(h1);
            &&& h2 == h
            &&& undone matches Some(u) && redone == Some(reversed(u))
        }),
{
    let (h1, undone) = undo_step(h);
    assert(h1.1.drop_last() =~= h.1);
    assert(h1.0.push(reversed(h1.1.last())) =~= h.0);
}

/// Redo followed by undo gives the history back.
pub proof fn law_redo_then_undo(h: HistoryState)
    requires
        h.1.len() > 0,
    ensures
        ({
            let (h1, redone) = redo_step(h);
            let (h2, undone) = undo_step(h1);
            &&& h2 == h
            &&& redone matches Some(r) && undone == Some(reversed(r))
        }),
{
    let (h1, redone) = redo_step(h);
    assert(h1.0.drop_last() =~= h.0);
    assert(h1.1.push(reversed(h1.0.last())) =~= h.1);
}

/// After recording an edit, undo hands that edit out, and nothing is left to
/// redo but its reverse.
pub proof fn law_push_then_undo(h: HistoryState, op: OpView)
    ensures
        ({
            let pushed = recorded(h, op);
            let (h1, undone) = undo_step(pushed);
            &&& undone == Some(op)
            &&& h1 == (h.0, seq![reversed(op)])
        }),
{
    let pushed = recorded(h, op);
    assert(pushed.0.drop_last() =~= h.0);
    assert(Seq::<OpView>::empty().push(reversed(op)) =~= seq![reversed(op)]);
}

/// The history after recording each edit of `ops`, in order.
pub open spec fn recorded_all(h: HistoryState, ops: Seq<OpView>) -> HistoryState
    decreases ops.len(),
{
    if ops.len() == 0 {
        h
    } else {
        recorded(recorded_all(h, ops.drop_last()), ops.last())
    }
}

/// The history after `n` undo steps, and what each step handed out, in order.
pub open spec fn undone_n(h: HistoryState, n: nat) -> (HistoryState, Seq<Option<OpView>>)
    decreases n,
{
    if n == 0 {
        (h, Seq::<Option<OpView>>::empty())
    } else {
        let (h1, out) = undone_n(h, (n - 1) as nat);
        let (h2, o) = undo_step(h1);
        (h2, out.push(o))
    }
}

proof fn lemma_recorded_all_fresh(ops: Seq<OpView>)
    ensures
        recorded_all((Seq::<OpView>::empty(), Seq::<OpView>::empty()), ops) == (
            ops,
            Seq::<OpView>::empty(),
        ),
    decreases ops.len(),
{
    if ops.len() > 0 {
        lemma_recorded_all_fresh(ops.drop_last());
        assert(ops.drop_last().push(ops.last()) =~= ops);
    }
}

proof fn lemma_undone_n(ops: Seq<OpView>, k: nat)
    requires
        k <= ops.len(),
    ensures
        ({
            let n = ops.len() as int;
            let (h, out) = undone_n((ops, Seq::<OpView>::empty()), k);
            &&& h.0 == ops.take(n - k)
            &&& h.1 == Seq::new(k, |i: int| reversed(ops[n - 1 - i]))
            &&& out == Seq::new(k, |i: int| Some(ops[n - 1 - i]))
        }),
    decreases k,
{
    let n = ops.len() as int;
    if k == 0 {
        assert(ops.take(n) =~= ops);
        assert(Seq::new(0, |i: int| reversed(ops[n - 1 - i])) =~= Seq::<OpView>::empty());
        assert(Seq::new(0, |i: int| Some(ops[n - 1 - i])) =~= Seq::<Option<OpView>>::empty());
    } else {
        lemma_undone_n(ops, (k - 1) as nat);
        let (h1, out1) = undone_n((ops, Seq::<OpView>::empty()), (k - 1) as nat);
        assert(h1.0.len() == n - k + 1);
        assert(h1.0.last() == ops[n - k]);
        assert(h1.0.drop_last() =~= ops.take(n - k));
        assert(h1.1.push(reversed(ops[n - k])) =~= Seq::new(k, |i: int| reversed(ops[n - 1 - i])));
        assert(out1.push(Some(ops[n - k])) =~= Seq::new(k, |i: int| Some(ops[n - 1 - i])));
    }
}

/// Undo runs back over the recorded edits in reverse order: after the edits
/// `ops` (any number `n` of them) are pushed onto a fresh history, the first
/// `k` undos (for every `k` up to `n`) hand out the last `k` edits, last
/// pushed first, leave the first `n - k` edits to undo and put the reverses
/// of the undone ones on the redo stack; so there is something to undo
/// exactly while `k < n`, and something to redo after every undo. After all
/// `n`, one undo more hands out nothing and changes nothing.
pub proof fn law_undo_reverses_edits(ops: Seq<OpView>)
    ensures
        ({
            let n = ops.len() as int;
            let h = recorded_all((Seq::<OpView>::empty(), Seq::<OpView>::empty()), ops);
            let (hn, out) = undone_n(h, ops.len());
            let (h_last, extra) = undo_step(hn);
            &&& forall|k: nat|
                k <= ops.len() ==> #[trigger] undone_n(h, k) == (
                    (ops.take(n - k), Seq::new(k, |i: int| reversed(ops[n - 1 - i]))),
                    Seq::new(k, |i: int| Some(ops[n - 1 - i])),
                )
            &&& forall|k: nat|
                k <= ops.len() ==> (#[trigger] undone_n(h, k)).0.0.len() == n - k
                    && undone_n(h, k).0.1.len() == k
            &&& out.len() == n
            &&& forall|k: int| 0 <= k < n ==> out[k] == Some(ops[n - 1 - k])
            &&& hn == (Seq::<OpView>::empty(), Seq::new(ops.len(), |i: int| reversed(ops[n - 1 - i])))
            &&& extra is None
            &&& h_last == hn
        }),
{
    lemma_recorded_all_fresh(ops);
    let n = ops.len() as int;
    let h = recorded_all((Seq::<OpView>::empty(), Seq::<OpView>::empty()), ops);
    assert forall|k: nat| k <= ops.len() implies #[trigger] undone_n(h, k) == (
        (ops.take(n - k), Seq::new(k, |i: int| reversed(ops[n - 1 - i]))),
        Seq::new(k, |i: int| Some(ops[n - 1 - i])),
    ) by {
        lemma_undone_n(ops, k);
    }
    lemma_undone_n(ops, ops.len());
    assert(ops.take(0) =~= Seq::<OpView>::empty());
}

} // verus!
