//! Undo/redo history for edit operations.

use vstd::prelude::*;
use crate::editor::buffer::{Buffer, BufferError, insert_result, delete_result};
use crate::editor::rope::text_fits;
use crate::text::str_chars;

verus! {

/// An edit operation that can be undone/redone.
#[derive(Debug, Clone, PartialEq, Eq)]
pub enum EditOperation {
    /// Insert text at a character position.
    Insert {
        /// Character position where text was inserted.
        pos: usize,
        /// The text that was inserted.
        text: String,
    },
    /// Delete text from a character range.
    Delete {
        /// Character position where deletion started.
        pos: usize,
        /// The text that was deleted.
        text: String,
    },
}

/// An edit operation as a value: its kind, its position and the chars of its text.
pub struct OpView {
    /// Whether the operation inserted its text (else it deleted it).
    pub insert: bool,
    /// The char position of the operation.
    pub pos: int,
    /// The chars of the operation's text.
    pub text: Seq<char>,
}

impl View for EditOperation {
    type V = OpView;

    open spec fn view(&self) -> OpView {
        match *self {
            EditOperation::Insert { pos, text } => OpView { insert: true, pos: pos as int, text: text@ },
            EditOperation::Delete { pos, text } => OpView { insert: false, pos: pos as int, text: text@ },
        }
    }
}

impl OpView {
    /// The number of chars of the operation's text: the width of the char
    /// range that the operation spans when it is replayed or undone.
    pub open spec fn span(self) -> int {
        self.text.len() as int
    }

    /// Whether the end of the operation's span fits in a `usize`.
    pub open spec fn fits(self) -> bool {
        self.pos + self.span() <= usize::MAX
    }
}

/// The values of a list of operations.
pub open spec fn op_views(ops: Seq<EditOperation>) -> Seq<OpView> {
    ops.map_values(|o: EditOperation| o@)
}

/// Undoing one operation on text `s`: an insertion removes its span, a
/// deletion puts its text back.
pub open spec fn op_undo(s: Seq<char>, op: OpView) -> Result<Seq<char>, BufferError> {
    if op.insert {
        delete_result(s, op.pos, op.pos + op.span())
    } else {
        insert_result(s, op.pos, op.text)
    }
}

/// Replaying one operation on text `s`: an insertion puts its text in, a
/// deletion removes its span.
pub open spec fn op_redo(s: Seq<char>, op: OpView) -> Result<Seq<char>, BufferError> {
    if op.insert {
        insert_result(s, op.pos, op.text)
    } else {
        delete_result(s, op.pos, op.pos + op.span())
    }
}

/// Undoing a group on text `s`: its operations from last to first, stopping at
/// the first that fails; the text reached, and the error if one failed.
pub open spec fn undo_run(s: Seq<char>, ops: Seq<OpView>) -> (Seq<char>, Option<BufferError>)
    decreases ops.len(),
{
    if ops.len() == 0 {
        (s, None)
    } else {
        match op_undo(s, ops.last()) {
            Ok(t) => undo_run(t, ops.drop_last()),
            Err(e) => (s, Some(e)),
        }
    }
}

/// Replaying a group on text `s`: its operations from first to last, stopping
/// at the first that fails; the text reached, and the error if one failed.
pub open spec fn redo_run(s: Seq<char>, ops: Seq<OpView>) -> (Seq<char>, Option<BufferError>)
    decreases ops.len(),
{
    if ops.len() == 0 {
        (s, None)
    } else {
        let (m, e) = redo_run(s, ops.drop_last());
        if e is Some {
            (m, e)
        } else {
            match op_redo(m, ops.last()) {
                Ok(t) => (t, None),
                Err(e2) => (m, Some(e2)),
            }
        }
    }
}

/// Whether replaying `op` on `s` is an edit that undoing takes back exactly:
/// its position is a char index, and a deletion's text is what its span holds in `s`.
pub open spec fn op_retraceable(s: Seq<char>, op: OpView) -> bool {
    &&& 0 <= op.pos
    &&& (!op.insert ==> op.pos + op.text.len() <= s.len() && s.subrange(
        op.pos,
        op.pos + op.text.len(),
    ) == op.text)
}

/// Whether every operation of a group, replayed from `s`, is retraceable where it applies.
pub open spec fn group_retraceable(s: Seq<char>, ops: Seq<OpView>) -> bool
    decreases ops.len(),
{
    if ops.len() == 0 {
        true
    } else {
        &&& group_retraceable(s, ops.drop_last())
        &&& op_retraceable(redo_run(s, ops.drop_last()).0, ops.last())
    }
}

/// Undoing an operation right after replaying it gives the text back.
pub proof fn lemma_op_undo_after_redo(s: Seq<char>, op: OpView)
    requires
        op_retraceable(s, op),
        op_redo(s, op) is Ok,
    ensures
        op_undo(op_redo(s, op)->Ok_0, op) == Ok::<Seq<char>, BufferError>(s),
{
    let t = op_redo(s, op)->Ok_0;
    let p = op.pos;
    let n = op.text.len() as int;
    if op.insert {
        assert(t.take(p) + t.skip(p + n) =~= s);
    } else {
        assert(t.take(p) + op.text + t.skip(p) =~= s);
    }
}

/// Law: once a group has been replayed on a text, undoing it gives the text
/// back, and replaying it again after that gives the edited text once more,
/// provided every operation is retraceable where it applies.
pub proof fn law_undo_restores_group(s: Seq<char>, ops: Seq<OpView>)
    requires
        redo_run(s, ops).1 is None,
        group_retraceable(s, ops),
    ensures
        undo_run(redo_run(s, ops).0, ops) == (s, None::<BufferError>),
        redo_run(undo_run(redo_run(s, ops).0, ops).0, ops) == redo_run(s, ops),
    decreases ops.len(),
{
    if ops.len() > 0 {
        let m = redo_run(s, ops.drop_last()).0;
        law_undo_restores_group(s, ops.drop_last());
        lemma_op_undo_after_redo(m, ops.last());
    }
}

/// What a successful undo does to a history: its newest undo group moves to
/// the redo stack.
pub open spec fn undone(h: HistoryView) -> HistoryView {
    HistoryView { undo: h.undo.drop_last(), redo: h.redo.push(h.undo.last()), ..h }
}

/// What a successful redo does to a history: its newest redo group moves back
/// to the undo stack.
pub open spec fn redone(h: HistoryView) -> HistoryView {
    HistoryView { undo: h.undo.push(h.redo.last()), redo: h.redo.drop_last(), ..h }
}

/// The history after a run of successful undos (`true`) and redos (`false`).
pub open spec fn after_steps(h: HistoryView, steps: Seq<bool>) -> HistoryView
    decreases steps.len(),
{
    if steps.len() == 0 {
        h
    } else {
        let g = after_steps(h, steps.drop_last());
        if steps.last() {
            undone(g)
        } else {
            redone(g)
        }
    }
}

/// Whether every step of the run found a group on the stack it takes from.
pub open spec fn steps_succeed(h: HistoryView, steps: Seq<bool>) -> bool
    decreases steps.len(),
{
    steps.len() == 0 || {
        &&& steps_succeed(h, steps.drop_last())
        &&& if steps.last() {
            after_steps(h, steps.drop_last()).undo.len() > 0
        } else {
            after_steps(h, steps.drop_last()).redo.len() > 0
        }
    }
}

/// The number of undos in a run of steps.
pub open spec fn undo_count(steps: Seq<bool>) -> int
    decreases steps.len(),
{
    if steps.len() == 0 {
        0
    } else {
        undo_count(steps.drop_last()) + if steps.last() {
            1int
        } else {
            0int
        }
    }
}

/// Law: after a push, a run of successful undos and redos leaves as many
/// groups to redo as there were more undos than redos, so there is something
/// to redo exactly when the undos outnumber the redos; and the groups to undo
/// shrink by that same number.
pub proof fn law_redo_count(h: HistoryView, op: OpView, steps: Seq<bool>)
    requires
        steps_succeed(h.pushed(op), steps),
    ensures
        after_steps(h.pushed(op), steps).redo.len() == 2 * undo_count(steps) - steps.len(),
        after_steps(h.pushed(op), steps).undo.len() == h.pushed(op).undo.len() - (2
            * undo_count(steps) - steps.len()),
        (after_steps(h.pushed(op), steps).redo.len() > 0) == (undo_count(steps) > steps.len()
            - undo_count(steps)),
    decreases steps.len(),
{
    if steps.len() > 0 {
        law_redo_count(h, op, steps.drop_last());
    }
}

/// Law: start from a history whose redo stack is empty (as `History::new`,
/// `push` and `clear` leave it), then make undo and redo calls that each
/// return `Ok(true)`: each such call leaves the `undone` or `redone` history
/// of the one before, as `History::undo` and `History::redo` ensure, and
/// found a group to take.  Then `can_redo` holds exactly when the undos
/// outnumber the redos.
pub proof fn law_can_redo_after_calls(hs: Seq<HistoryView>, steps: Seq<bool>)
    requires
        hs.len() == steps.len() + 1,
        hs[0].redo.len() == 0,
        forall|i: int|
            0 <= i < steps.len() ==> hs[i + 1] == if #[trigger] steps[i] {
                undone(hs[i])
            } else {
                redone(hs[i])
            },
        forall|i: int|
            0 <= i < steps.len() ==> if #[trigger] steps[i] {
                hs[i].undo.len() > 0
            } else {
                hs[i].redo.len() > 0
            },
    ensures
        hs.last().redo.len() == 2 * undo_count(steps) - steps.len(),
        (hs.last().redo.len() > 0) == (undo_count(steps) > steps.len() - undo_count(steps)),
    decreases steps.len(),
{
    if steps.len() > 0 {
        let k = steps.len() - 1;
        let hs2 = hs.drop_last();
        let st2 = steps.drop_last();
        assert forall|i: int| 0 <= i < st2.len() implies hs2[i + 1] == if #[trigger] st2[i] {
            undone(hs2[i])
        } else {
            redone(hs2[i])
        } by {
            assert(steps[i] == st2[i]);
        }
        assert forall|i: int| 0 <= i < st2.len() implies if #[trigger] st2[i] {
            hs2[i].undo.len() > 0
        } else {
            hs2[i].redo.len() > 0
        } by {
            assert(steps[i] == st2[i]);
        }
        law_can_redo_after_calls(hs2, st2);
        assert(hs2.last() == hs[k]);
        assert(steps[k] == steps.last());
    }
}

/// Law: runs of one-char edits make one undo group.  With grouping on and no
/// break forced, a one-char deletion at the place of the newest group's last
/// one-char deletion (Delete held down) or one char before it (Backspace held
/// down) joins that group, and so does a one-char insertion other than a
/// newline right after the newest group's last one-char insertion (typing);
/// the redo groups are dropped either way.
pub proof fn law_char_runs_merge(h: HistoryView, op: OpView)
    requires
        h.grouping,
        !h.force_new_group,
        h.undo.len() > 0,
        h.undo.last().len() > 0,
        ({
            let prev = h.undo.last().last();
            ||| !prev.insert && !op.insert && prev.text.len() == 1 && op.text.len() == 1 && (op.pos
                == prev.pos || (prev.pos >= 1 && op.pos == prev.pos - 1) || (prev.pos <= 0
                && op.pos == 0))
            ||| prev.insert && op.insert && prev.text.len() == 1 && op.text.len() == 1 && op.pos
                == prev.pos + 1 && prev.text[0] != '\n' && op.text[0] != '\n'
        }),
    ensures
        h.pushed(op).undo.len() == h.undo.len(),
        h.pushed(op).undo.last() == h.undo.last().push(op),
        h.pushed(op).undo.drop_last() == h.undo.drop_last(),
        h.pushed(op).redo.len() == 0,
{
}

/// Law: an edit of the other kind than the newest group's last one (an
/// insertion after a deletion or the reverse), a newline typed, or an edit
/// of more than one char starts an undo group of its own.
pub proof fn law_other_edits_start_group(h: HistoryView, op: OpView)
    requires
        h.undo.len() > 0,
        h.undo.last().len() > 0,
        ({
            let prev = h.undo.last().last();
            ||| prev.insert != op.insert
            ||| op.text.len() != 1
            ||| op.insert && op.text.len() == 1 && op.text[0] == '\n'
        }),
    ensures
        h.pushed(op).undo == h.undo.push(seq![op]),
        h.pushed(op).redo.len() == 0,
{
}

/// Law: a successful undo followed by a redo gives the history back.
pub proof fn law_undo_then_redo_history(h: HistoryView)
    requires
        h.undo.len() > 0,
    ensures
        after_steps(h, seq![true, false]) == h,
{
    let s = seq![true, false];
    assert(s.drop_last() =~= seq![true]);
    assert(seq![true].drop_last() =~= Seq::<bool>::empty());
    assert(after_steps(h, Seq::<bool>::empty()) == h);
    let u = after_steps(h, seq![true]);
    assert(u == HistoryView { undo: h.undo.drop_last(), redo: h.redo.push(h.undo.last()), ..h });
    assert(u.undo.push(u.redo.last()) =~= h.undo);
    assert(u.redo.drop_last() =~= h.redo);
}

/// Whether `new_op` joins a group whose operations are `existing`: both are
/// one-char insertions, the new one right after the last, neither a newline;
/// or both are one-char deletions at the same place or one before.
pub open spec fn merges(existing: Seq<OpView>, new_op: OpView) -> bool {
    existing.len() > 0 && {
        let prev = existing.last();
        if prev.insert && new_op.insert {
            &&& prev.text.len() == 1
            &&& new_op.text.len() == 1
            &&& new_op.pos == prev.pos + 1
            &&& prev.text.last() != '\n'
            &&& new_op.text.last() != '\n'
        } else if !prev.insert && !new_op.insert {
            &&& prev.text.len() == 1
            &&& new_op.text.len() == 1
            &&& (new_op.pos == (if prev.pos >= 1 {
                prev.pos - 1
            } else {
                0
            }) || new_op.pos == prev.pos)
        } else {
            false
        }
    }
}

/// A group of operations that should be undone/redone together.
#[derive(Debug, Clone, PartialEq, Eq)]
struct EditGroup {
    ops: Vec<EditOperation>,
}

/// Undo/redo history.
#[derive(Debug, Clone)]
pub struct History {
    undo_stack: Vec<EditGroup>,
    redo_stack: Vec<EditGroup>,
    /// When true, consecutive single-char inserts/deletes are grouped.
    grouping: bool,
    /// When true, force the next push to start a new group.
    force_new_group: bool,
}

/// A history as a value: the groups undo takes back and those redo replays
/// (oldest first, each a list of operations), and its two grouping flags.
pub struct HistoryView {
    /// The groups that undo takes back, the newest last.
    pub undo: Seq<Seq<OpView>>,
    /// The groups that redo replays, the newest last.
    pub redo: Seq<Seq<OpView>>,
    /// Whether grouping is on.
    pub grouping: bool,
    /// Whether the next push starts a new group.
    pub force_new_group: bool,
}

/// The operations of each group of a stack.
pub closed spec fn groups_of(stack: Seq<EditGroup>) -> Seq<Seq<OpView>> {
    stack.map_values(|g: EditGroup| op_views(g.ops@))
}

/// Whether every operation of every group fits.
pub open spec fn all_fit(groups: Seq<Seq<OpView>>) -> bool {
    forall|i: int, j: int|
        0 <= i < groups.len() && 0 <= j < groups[i].len() ==> #[trigger] groups[i][j].fits()
}

impl HistoryView {
    /// Every recorded operation's span ends within `usize`.
    pub open spec fn wf(self) -> bool {
        all_fit(self.undo) && all_fit(self.redo)
    }

    /// The history after pushing `op`: the redo groups are dropped; `op` joins
    /// the newest group when grouping is on, no new group is forced and it
    /// merges with that group; otherwise it starts a group of its own and the
    /// forcing is over.
    pub open spec fn pushed(self, op: OpView) -> HistoryView {
        if self.grouping && !self.force_new_group && self.undo.len() > 0 && merges(
            self.undo.last(),
            op,
        ) {
            HistoryView {
                undo: self.undo.drop_last().push(self.undo.last().push(op)),
                redo: Seq::empty(),
                ..self
            }
        } else {
            HistoryView {
                undo: self.undo.push(seq![op]),
                redo: Seq::empty(),
                force_new_group: false,
                ..self
            }
        }
    }

    /// The history with the next push forced to start a new group.
    pub open spec fn with_break(self) -> HistoryView {
        HistoryView { force_new_group: true, ..self }
    }

    /// The history with grouping on.
    pub open spec fn with_grouping(self) -> HistoryView {
        HistoryView { grouping: true, ..self }
    }

    /// A history with no groups, grouping on and nothing forced.
    pub open spec fn fresh() -> HistoryView {
        HistoryView { undo: Seq::empty(), redo: Seq::empty(), grouping: true, force_new_group: false }
    }
}

impl View for History {
    type V = HistoryView;

    closed spec fn view(&self) -> HistoryView {
        HistoryView {
            undo: groups_of(self.undo_stack@),
            redo: groups_of(self.redo_stack@),
            grouping: self.grouping,
            force_new_group: self.force_new_group,
        }
    }
}

impl History {
    /// Create a new empty history, with grouping on.
    pub fn new() -> (h: Self)
        ensures
            h@ == HistoryView::fresh(),
    {
        let h = History {
            undo_stack: Vec::new(),
            redo_stack: Vec::new(),
            grouping: true,
            force_new_group: false,
        };
        proof {
            assert(groups_of(h.undo_stack@) =~= Seq::<Seq<OpView>>::empty());
            assert(groups_of(h.redo_stack@) =~= Seq::<Seq<OpView>>::empty());
        }
        h
    }

    /// Push an operation onto the undo stack.
    /// Clears the redo stack. Groups consecutive character inserts/deletes.
    pub fn push(&mut self, op: EditOperation)
        requires
            old(self)@.wf(),
            op@.fits(),
        ensures
            final(self)@ == old(self)@.pushed(op@),
            final(self)@.wf(),
    {
        let ghost groups = old(self)@.undo;
        self.redo_stack.clear();
        proof {
            assert(groups_of(self.redo_stack@) =~= Seq::<Seq<OpView>>::empty());
        }
        if self.grouping && !self.force_new_group {
            let n: usize = self.undo_stack.len();
            if n > 0 {
                proof {
                    assert(op_views(self.undo_stack@[n - 1].ops@) == groups[n - 1]);
                    if groups[n - 1].len() > 0 {
                        assert(groups[n - 1][groups[n - 1].len() - 1].fits());
                    }
                }
                let merge = Self::can_merge(&self.undo_stack[n - 1].ops, &op);
                if merge {
                    let mut group = self.undo_stack.pop().unwrap();
                    group.ops.push(op);
                    self.undo_stack.push(group);
                    proof {
                        assert(op_views(group.ops@) =~= groups.last().push(op@));
                        assert(groups_of(self.undo_stack@) =~= groups.drop_last().push(
                            groups.last().push(op@),
                        ));
                        let g = self@.undo;
                        assert forall|i: int, j: int|
                            0 <= i < g.len() && 0 <= j < g[i].len() implies #[trigger] g[i][j].fits() by {
                            if i < g.len() - 1 {
                                assert(g[i] == groups[i]);
                            } else if j < g[i].len() - 1 {
                                assert(g[i][j] == groups[i][j]);
                            }
                        }
                        assert(self@ =~= old(self)@.pushed(op@));
                    }
                    return;
                }
            }
        }
        self.force_new_group = false;
        let mut ops: Vec<EditOperation> = Vec::new();
        ops.push(op);
        self.undo_stack.push(EditGroup { ops });
        proof {
            assert(op_views(ops@) =~= seq![op@]);
            assert(groups_of(self.undo_stack@) =~= groups.push(seq![op@]));
            let g = self@.undo;
            assert forall|i: int, j: int|
                0 <= i < g.len() && 0 <= j < g[i].len() implies #[trigger] g[i][j].fits() by {
                if i < g.len() - 1 {
                    assert(g[i] == groups[i]);
                }
            }
            assert(self@ =~= old(self)@.pushed(op@));
        }
    }

    /// Undo the last group of operations: `Ok(false)` if there is none; else
    /// the group's operations undone from last to first, and `Ok(true)` with the
    /// group moved to the redo stack, or the first error (the group is then dropped).
    #[verifier::loop_isolation(false)]
    pub fn undo(&mut self, buffer: &mut Buffer) -> (r: Result<bool, BufferError>)
        requires
            old(self)@.wf(),
        ensures
            final(self)@.wf(),
            final(self)@.grouping == old(self)@.grouping,
            final(self)@.force_new_group == old(self)@.force_new_group,
            text_fits(old(buffer)@) ==> text_fits(final(buffer)@),
            ({
                let groups = old(self)@.undo;
                if groups.len() == 0 {
                    &&& r == Ok::<bool, BufferError>(false)
                    &&& final(buffer)@ == old(buffer)@
                    &&& final(self)@ == old(self)@
                } else {
                    let (t, e) = undo_run(old(buffer)@, groups.last());
                    &&& final(buffer)@ == t
                    &&& final(self)@.undo == groups.drop_last()
                    &&& match e {
                        None => r == Ok::<bool, BufferError>(true) && final(self)@.redo == old(self)@.redo.push(groups.last()) && final(self)@ == undone(old(self)@),
                        Some(err) => r == Err::<bool, BufferError>(err) && final(self)@.redo == old(self)@.redo,
                    }
                }
            }),
    {
        let ghost groups = old(self)@.undo;
        let ghost redo = old(self)@.redo;
        let group = match self.undo_stack.pop() {
            Some(g) => g,
            None => {
                proof {
                    assert(self.undo_stack@ =~= old(self).undo_stack@);
                }
                return Ok(false);
            },
        };
        let ghost ops = op_views(group.ops@);
        proof {
            assert(self.undo_stack@ == old(self).undo_stack@.drop_last());
            assert(groups_of(self.undo_stack@) =~= groups.drop_last());
            assert(ops == groups.last());
            lemma_all_fit_drop_last(groups);
            assert(ops.take(ops.len() as int) == ops);
        }
        let ghost before = buffer@;
        let mut i: usize = group.ops.len();
        while i > 0
            invariant
                i <= ops.len(),
                ops.len() == group.ops@.len(),
                ops == op_views(group.ops@),
                ops == groups.last(),
                groups.len() > 0,
                all_fit(groups),
                text_fits(before) ==> text_fits(buffer@),
                undo_run(before, ops) == undo_run(buffer@, ops.take(i as int)),
            decreases i,
        {
            i -= 1;
            proof {
                assert(ops.take(i + 1).drop_last() == ops.take(i as int));
                assert(groups[groups.len() - 1][i as int].fits());
                assert(ops[i as int] == group.ops@[i as int]@);
            }
            let step = match &group.ops[i] {
                EditOperation::Insert { pos, text } => {
                    match buffer.delete(*pos..*pos + text.as_str().unicode_len()) {
                        Ok(_) => Ok(()),
                        Err(e) => Err(e),
                    }
                },
                EditOperation::Delete { pos, text } => buffer.insert(*pos, text.as_str()),
            };
            match step {
                Ok(()) => {},
                Err(e) => {
                    proof {
                        assert(undo_run(before, ops) == (buffer@, Some(e)));
                    }
                    return Err(e);
                },
            }
        }
        proof {
            assert(ops.take(0) =~= Seq::<OpView>::empty());
        }
        self.redo_stack.push(group);
        proof {
            assert(groups_of(self.redo_stack@) =~= redo.push(groups.last()));
            let g = self@.redo;
            assert forall|i: int, j: int|
                0 <= i < g.len() && 0 <= j < g[i].len() implies #[trigger] g[i][j].fits() by {
                if i < g.len() - 1 {
                    assert(g[i] == redo[i]);
                } else {
                    assert(g[i][j] == groups[groups.len() - 1][j]);
                }
            }
        }
        Ok(true)
    }

    /// Redo the last undone group: `Ok(false)` if there is none; else the
    /// group's operations replayed from first to last, and `Ok(true)` with the
    /// group moved back to the undo stack, or the first error (the group is then dropped).
    #[verifier::loop_isolation(false)]
    pub fn redo(&mut self, buffer: &mut Buffer) -> (r: Result<bool, BufferError>)
        requires
            old(self)@.wf(),
        ensures
            final(self)@.wf(),
            final(self)@.grouping == old(self)@.grouping,
            final(self)@.force_new_group == old(self)@.force_new_group,
            text_fits(old(buffer)@) ==> text_fits(final(buffer)@),
            ({
                let groups = old(self)@.redo;
                if groups.len() == 0 {
                    &&& r == Ok::<bool, BufferError>(false)
                    &&& final(buffer)@ == old(buffer)@
                    &&& final(self)@ == old(self)@
                } else {
                    let (t, e) = redo_run(old(buffer)@, groups.last());
                    &&& final(buffer)@ == t
                    &&& final(self)@.redo == groups.drop_last()
                    &&& match e {
                        None => r == Ok::<bool, BufferError>(true) && final(self)@.undo == old(self)@.undo.push(groups.last()) && final(self)@ == redone(old(self)@),
                        Some(err) => r == Err::<bool, BufferError>(err) && final(self)@.undo == old(self)@.undo,
                    }
                }
            }),
    {
        let ghost groups = old(self)@.redo;
        let ghost undo = old(self)@.undo;
        let group = match self.redo_stack.pop() {
            Some(g) => g,
            None => {
                proof {
                    assert(self.redo_stack@ =~= old(self).redo_stack@);
                }
                return Ok(false);
            },
        };
        let ghost ops = op_views(group.ops@);
        proof {
            assert(self.redo_stack@ == old(self).redo_stack@.drop_last());
            assert(groups_of(self.redo_stack@) =~= groups.drop_last());
            assert(ops == groups.last());
            lemma_all_fit_drop_last(groups);
            assert(ops.take(0) =~= Seq::<OpView>::empty());
        }
        let ghost before = buffer@;
        let n: usize = group.ops.len();
        let mut i: usize = 0;
        while i < n
            invariant
                i <= n,
                n == ops.len(),
                ops.len() == group.ops@.len(),
                ops == op_views(group.ops@),
                ops == groups.last(),
                groups.len() > 0,
                all_fit(groups),
                text_fits(before) ==> text_fits(buffer@),
                redo_run(before, ops.take(i as int)) == (buffer@, None::<BufferError>),
            decreases n - i,
        {
            proof {
                assert(ops.take(i + 1).drop_last() == ops.take(i as int));
                assert(ops.take(i + 1).last() == ops[i as int]);
                assert(groups[groups.len() - 1][i as int].fits());
                assert(ops[i as int] == group.ops@[i as int]@);
            }
            let step = match &group.ops[i] {
                EditOperation::Insert { pos, text } => buffer.insert(*pos, text.as_str()),
                EditOperation::Delete { pos, text } => {
                    match buffer.delete(*pos..*pos + text.as_str().unicode_len()) {
                        Ok(_) => Ok(()),
                        Err(e) => Err(e),
                    }
                },
            };
            match step {
                Ok(()) => {},
                Err(e) => {
                    proof {
                        lemma_redo_run_stops(before, ops, i as int);
                    }
                    return Err(e);
                },
            }
            i += 1;
        }
        proof {
            assert(ops.take(n as int) =~= ops);
        }
        self.undo_stack.push(group);
        proof {
            assert(groups_of(self.undo_stack@) =~= undo.push(groups.last()));
            let g = self@.undo;
            assert forall|i: int, j: int|
                0 <= i < g.len() && 0 <= j < g[i].len() implies #[trigger] g[i][j].fits() by {
                if i < g.len() - 1 {
                    assert(g[i] == undo[i]);
                } else {
                    assert(g[i][j] == groups[groups.len() - 1][j]);
                }
            }
        }
        Ok(true)
    }

    /// Start a new group boundary (prevents merging with previous ops).
    pub fn break_group(&mut self)
        ensures
            final(self)@ == old(self)@.with_break(),
    {
        self.force_new_group = true;
    }

    /// Re-enable grouping after a break.
    pub fn enable_grouping(&mut self)
        ensures
            final(self)@ == old(self)@.with_grouping(),
    {
        self.grouping = true;
    }

    /// Whether there is a group to undo.
    pub fn can_undo(&self) -> (r: bool)
        ensures
            r == (self@.undo.len() > 0),
    {
        self.undo_stack.len() > 0
    }

    /// Whether there is a group to redo.
    pub fn can_redo(&self) -> (r: bool)
        ensures
            r == (self@.redo.len() > 0),
    {
        self.redo_stack.len() > 0
    }

    /// Clear all history; the grouping flags stay as they are.
    pub fn clear(&mut self)
        ensures
            final(self)@ == (HistoryView { undo: Seq::empty(), redo: Seq::empty(), ..old(self)@ }),
            final(self)@.wf(),
    {
        self.undo_stack.clear();
        self.redo_stack.clear();
        proof {
            assert(groups_of(self.undo_stack@) =~= Seq::<Seq<OpView>>::empty());
            assert(groups_of(self.redo_stack@) =~= Seq::<Seq<OpView>>::empty());
        }
    }

    /// Determine if a new operation can be merged with the current group.
    fn can_merge(existing: &Vec<EditOperation>, new_op: &EditOperation) -> (r: bool)
        requires
            existing@.len() > 0 ==> existing@.last()@.fits(),
        ensures
            r == merges(op_views(existing@), new_op@),
    {
        let n: usize = existing.len();
        if n == 0 {
            return false;
        }
        proof {
            assert(op_views(existing@).last() == existing@[n - 1]@);
        }
        let last = &existing[n - 1];
        match (last, new_op) {
            (
                EditOperation::Insert { pos: prev_pos, text: prev_text },
                EditOperation::Insert { pos, text },
            ) => {
                prev_text.as_str().unicode_len() == 1 && text.as_str().unicode_len() == 1 && *pos == *prev_pos
                    + prev_text.as_str().unicode_len() && !ends_with_newline(prev_text.as_str())
                    && !ends_with_newline(text.as_str())
            },
            (
                EditOperation::Delete { pos: prev_pos, text: prev_text },
                EditOperation::Delete { pos, text },
            ) => {
                prev_text.as_str().unicode_len() == 1 && text.as_str().unicode_len() == 1 && (*pos
                    == prev_pos.saturating_sub(1) || *pos == *prev_pos)
            },
            _ => false,
        }
    }
}

/// Whether a string's last char is a newline (never for an empty string).
fn ends_with_newline(s: &str) -> (r: bool)
    ensures
        r == (s@.len() > 0 && s@.last() == '\n'),
{
    let chars = str_chars(s);
    let n: usize = chars.len();
    n > 0 && chars[n - 1] == '\n'
}

/// Dropping the newest group keeps every operation fitting.
proof fn lemma_all_fit_drop_last(groups: Seq<Seq<OpView>>)
    requires
        all_fit(groups),
        groups.len() > 0,
    ensures
        all_fit(groups.drop_last()),
        forall|j: int| 0 <= j < groups.last().len() ==> #[trigger] groups.last()[j].fits(),
{
    let d = groups.drop_last();
    assert forall|i: int, j: int| 0 <= i < d.len() && 0 <= j < d[i].len() implies #[trigger] d[i][j].fits() by {
        assert(d[i] == groups[i]);
    }
    assert forall|j: int| 0 <= j < groups.last().len() implies #[trigger] groups.last()[j].fits() by {
        assert(groups[groups.len() - 1][j].fits());
    }
}


/// When a replayed operation fails, replaying the group stops there.
proof fn lemma_redo_run_stops(s: Seq<char>, ops: Seq<OpView>, i: int)
    requires
        0 <= i < ops.len(),
        redo_run(s, ops.take(i)).1 is None,
        op_redo(redo_run(s, ops.take(i)).0, ops[i]) is Err,
    ensures
        redo_run(s, ops) == (redo_run(s, ops.take(i)).0, Some(
            op_redo(redo_run(s, ops.take(i)).0, ops[i])->Err_0,
        )),
    decreases ops.len() - i,
{
    assert(ops.take(i + 1).drop_last() == ops.take(i));
    if i + 1 < ops.len() {
        lemma_redo_run_stops_prefix(s, ops, i + 1);
    } else {
        assert(ops.take(i + 1) == ops);
    }
}

/// Once replaying a prefix has failed, the whole group ends with that failure.
proof fn lemma_redo_run_stops_prefix(s: Seq<char>, ops: Seq<OpView>, k: int)
    requires
        0 <= k <= ops.len(),
        redo_run(s, ops.take(k)).1 is Some,
    ensures
        redo_run(s, ops) == redo_run(s, ops.take(k)),
    decreases ops.len() - k,
{
    if k < ops.len() {
        assert(ops.take(k + 1).drop_last() == ops.take(k));
        lemma_redo_run_stops_prefix(s, ops, k + 1);
    } else {
        assert(ops.take(k) == ops);
    }
}

impl Default for History {
    fn default() -> (h: Self)
        ensures
            h@ == HistoryView::fresh(),
    {
        Self::new()
    }
}

} // verus!
