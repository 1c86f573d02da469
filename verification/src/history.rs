//! Undo/redo as an operation log. Operations are grouped into human-sized
//! chunks (roughly words); the document decides where group boundaries fall
//! and callers may force one (e.g. on a typing pause).
//!
//! The log is checked against the text it was recorded on: a history is
//! *consistent* with a text when undoing every group in turn is possible and
//! every group waiting to be redone can be replayed. Undo and redo keep that
//! relation, and one undone group is exactly restored by redo.

use vstd::prelude::*;
use crate::buffer::Buffer;
use crate::text::chars_of;

verus! {

#[derive(Debug)]
pub enum EditOp {
    Insert { at: usize, text: String },
    Remove { at: usize, text: String },
}

/// An operation as a value: where it applies and the chars it moves.
pub enum OpV {
    Ins(nat, Seq<char>),
    Rem(nat, Seq<char>),
}

impl View for EditOp {
    type V = OpV;

    open spec fn view(&self) -> OpV {
        match self {
            EditOp::Insert { at, text } => OpV::Ins(*at as nat, text@),
            EditOp::Remove { at, text } => OpV::Rem(*at as nat, text@),
        }
    }
}

/// The opposite operation.
pub open spec fn invert(op: OpV) -> OpV {
    match op {
        OpV::Ins(at, t) => OpV::Rem(at, t),
        OpV::Rem(at, t) => OpV::Ins(at, t),
    }
}

/// The operation can run on `s` (the buffer would not panic).
pub open spec fn in_bounds(s: Seq<char>, op: OpV) -> bool {
    match op {
        OpV::Ins(at, _) => at <= s.len(),
        OpV::Rem(at, t) => at + t.len() <= s.len(),
    }
}

/// The operation describes `s`: it runs, and a removal removes exactly the
/// chars it records.
pub open spec fn describes(s: Seq<char>, op: OpV) -> bool {
    match op {
        OpV::Ins(at, _) => at <= s.len(),
        OpV::Rem(at, t) => at + t.len() <= s.len() && s.subrange(at as int, (at + t.len()) as int) == t,
    }
}

/// The text after running `op` on `s`.
pub open spec fn apply(s: Seq<char>, op: OpV) -> Seq<char> {
    match op {
        OpV::Ins(at, t) => s.take(at as int) + t + s.skip(at as int),
        OpV::Rem(at, t) => s.take(at as int) + s.skip((at + t.len()) as int),
    }
}

/// Running `ops` in order from `s`.
pub open spec fn apply_all(s: Seq<char>, ops: Seq<OpV>) -> Seq<char>
    decreases ops.len(),
{
    if ops.len() == 0 {
        s
    } else {
        apply_all(apply(s, ops[0]), ops.drop_first())
    }
}

/// Every op of `ops`, run in order from `s`, stays within bounds.
pub open spec fn all_in_bounds(s: Seq<char>, ops: Seq<OpV>) -> bool
    decreases ops.len(),
{
    ops.len() == 0 || (in_bounds(s, ops[0]) && all_in_bounds(apply(s, ops[0]), ops.drop_first()))
}

/// Every op of `ops`, run in order from `s`, describes the text it meets.
pub open spec fn all_describe(s: Seq<char>, ops: Seq<OpV>) -> bool
    decreases ops.len(),
{
    ops.len() == 0 || (describes(s, ops[0]) && all_describe(apply(s, ops[0]), ops.drop_first()))
}

/// Undoing `ops` from `t`: their inverses, last op first.
pub open spec fn unapply_all(t: Seq<char>, ops: Seq<OpV>) -> Seq<char>
    decreases ops.len(),
{
    if ops.len() == 0 {
        t
    } else {
        unapply_all(apply(t, invert(ops.last())), ops.drop_last())
    }
}

/// Undoing `ops` from `t` stays within bounds.
pub open spec fn unapply_in_bounds(t: Seq<char>, ops: Seq<OpV>) -> bool
    decreases ops.len(),
{
    ops.len() == 0 || (in_bounds(t, invert(ops.last())) && unapply_in_bounds(
        apply(t, invert(ops.last())),
        ops.drop_last(),
    ))
}

/// Undoing `ops` from `t` meets, at each step, the text it records.
pub open spec fn unapply_describes(t: Seq<char>, ops: Seq<OpV>) -> bool
    decreases ops.len(),
{
    ops.len() == 0 || (describes(t, invert(ops.last())) && unapply_describes(
        apply(t, invert(ops.last())),
        ops.drop_last(),
    ))
}

/// One op and its inverse cancel.
pub proof fn lemma_op_roundtrip(s: Seq<char>, op: OpV)
    requires
        describes(s, op),
    ensures
        describes(apply(s, op), invert(op)),
        apply(apply(s, op), invert(op)) == s,
{
    match op {
        OpV::Ins(at, t) => {
            let u = apply(s, op);
            assert(u.subrange(at as int, (at + t.len()) as int) =~= t);
            assert(apply(u, invert(op)) =~= s);
        },
        OpV::Rem(at, t) => {
            let u = apply(s, op);
            assert(apply(u, invert(op)) =~= s);
        },
    }
}

proof fn lemma_invert_invert(op: OpV)
    ensures
        invert(invert(op)) == op,
{
}

/// Running `ops` then one more op.
pub proof fn lemma_apply_push(s: Seq<char>, ops: Seq<OpV>, op: OpV)
    ensures
        apply_all(s, ops.push(op)) == apply(apply_all(s, ops), op),
        all_describe(s, ops.push(op)) == (all_describe(s, ops) && describes(
            apply_all(s, ops),
            op,
        )),
        all_in_bounds(s, ops.push(op)) == (all_in_bounds(s, ops) && in_bounds(
            apply_all(s, ops),
            op,
        )),
    decreases ops.len(),
{
    if ops.len() == 0 {
        assert(ops.push(op).drop_first() =~= Seq::<OpV>::empty());
        assert(ops.push(op)[0] == op);
        assert(apply_all(apply(s, op), Seq::<OpV>::empty()) == apply(s, op));
        assert(all_describe(apply(s, op), Seq::<OpV>::empty()));
        assert(all_in_bounds(apply(s, op), Seq::<OpV>::empty()));
    } else {
        assert(ops.push(op).drop_first() =~= ops.drop_first().push(op));
        assert(ops.push(op)[0] == ops[0]);
        lemma_apply_push(apply(s, ops[0]), ops.drop_first(), op);
    }
}

/// Undoing what was done gives the text back.
pub proof fn lemma_undo_after_do(s: Seq<char>, ops: Seq<OpV>)
    requires
        all_describe(s, ops),
    ensures
        unapply_describes(apply_all(s, ops), ops),
        unapply_all(apply_all(s, ops), ops) == s,
    decreases ops.len(),
{
    if ops.len() > 0 {
        let p = ops.drop_last();
        let o = ops.last();
        assert(p.push(o) =~= ops);
        lemma_apply_push(s, p, o);
        lemma_undo_after_do(s, p);
        lemma_op_roundtrip(apply_all(s, p), o);
    }
}

/// Redoing what was undone gives the text back.
pub proof fn lemma_redo_after_undo(t: Seq<char>, ops: Seq<OpV>)
    requires
        unapply_describes(t, ops),
    ensures
        all_describe(unapply_all(t, ops), ops),
        apply_all(unapply_all(t, ops), ops) == t,
    decreases ops.len(),
{
    if ops.len() > 0 {
        let p = ops.drop_last();
        let o = ops.last();
        let t1 = apply(t, invert(o));
        lemma_redo_after_undo(t1, p);
        lemma_op_roundtrip(t, invert(o));
        lemma_invert_invert(o);
        assert(p.push(o) =~= ops);
        lemma_apply_push(unapply_all(t, ops), p, o);
    }
}

proof fn lemma_all_describe_in_bounds(s: Seq<char>, ops: Seq<OpV>)
    requires
        all_describe(s, ops),
    ensures
        all_in_bounds(s, ops),
    decreases ops.len(),
{
    if ops.len() > 0 {
        lemma_all_describe_in_bounds(apply(s, ops[0]), ops.drop_first());
    }
}

proof fn lemma_unapply_describes_in_bounds(t: Seq<char>, ops: Seq<OpV>)
    requires
        unapply_describes(t, ops),
    ensures
        unapply_in_bounds(t, ops),
    decreases ops.len(),
{
    if ops.len() > 0 {
        lemma_unapply_describes_in_bounds(apply(t, invert(ops.last())), ops.drop_last());
    }
}

/// A group of operations undone and redone together.
pub struct GroupV {
    pub ops: Seq<OpV>,
    pub cursor_before: nat,
    pub cursor_after: nat,
}

#[derive(Debug)]
struct EditGroup {
    ops: Vec<EditOp>,
    cursor_before: usize,
    cursor_after: usize,
}

impl View for EditGroup {
    type V = GroupV;

    closed spec fn view(&self) -> GroupV {
        GroupV {
            ops: self.ops@.map_values(|o: EditOp| o@),
            cursor_before: self.cursor_before as nat,
            cursor_after: self.cursor_after as nat,
        }
    }
}

/// The history as values: closed groups to undo (last is next), groups to
/// redo (last is next), and the group still collecting edits.
pub struct HistoryV {
    pub undo: Seq<GroupV>,
    pub redo: Seq<GroupV>,
    pub open: Option<GroupV>,
}

/// Undo groups with the open one closed on top.
pub open spec fn closed_groups(h: HistoryV) -> Seq<GroupV> {
    match h.open {
        Some(g) => h.undo.push(g),
        None => h.undo,
    }
}

/// Undoing `groups` one by one from `t`, each meeting the text it recorded.
pub open spec fn undo_chain(t: Seq<char>, groups: Seq<GroupV>) -> bool
    decreases groups.len(),
{
    groups.len() == 0 || (unapply_describes(t, groups.last().ops) && undo_chain(
        unapply_all(t, groups.last().ops),
        groups.drop_last(),
    ))
}

/// Redoing `groups` one by one (last first) from `t`, each meeting the text
/// it recorded.
pub open spec fn redo_chain(t: Seq<char>, groups: Seq<GroupV>) -> bool
    decreases groups.len(),
{
    groups.len() == 0 || (all_describe(t, groups.last().ops) && redo_chain(
        apply_all(t, groups.last().ops),
        groups.drop_last(),
    ))
}

/// The history was recorded on `t`: every group undoes and redoes cleanly.
pub open spec fn consistent(h: HistoryV, t: Seq<char>) -> bool {
    &&& undo_chain(t, closed_groups(h))
    &&& redo_chain(t, h.redo)
}

/// The history after closing the open group.
pub open spec fn commit_spec(h: HistoryV) -> HistoryV {
    HistoryV { undo: closed_groups(h), redo: h.redo, open: None }
}

/// The history after recording `op` (already applied) into the open group.
pub open spec fn record_spec(h: HistoryV, op: OpV, before: nat, after: nat) -> HistoryV {
    HistoryV {
        undo: h.undo,
        redo: Seq::empty(),
        open: Some(
            match h.open {
                Some(g) => GroupV { ops: g.ops.push(op), cursor_before: g.cursor_before, cursor_after: after },
                None => GroupV { ops: seq![op], cursor_before: before, cursor_after: after },
            },
        ),
    }
}

/// The history and text after undoing one group (`None`: nothing to undo).
pub open spec fn undo_spec(h: HistoryV, t: Seq<char>) -> Option<(HistoryV, Seq<char>, nat)> {
    let c = closed_groups(h);
    if c.len() == 0 {
        None
    } else {
        let g = c.last();
        Some(
            (
                HistoryV { undo: c.drop_last(), redo: h.redo.push(g), open: None },
                unapply_all(t, g.ops),
                g.cursor_before,
            ),
        )
    }
}

/// The history and text after redoing one group (`None`: nothing to redo).
pub open spec fn redo_spec(h: HistoryV, t: Seq<char>) -> Option<(HistoryV, Seq<char>, nat)> {
    if h.redo.len() == 0 {
        None
    } else {
        let g = h.redo.last();
        Some(
            (
                HistoryV { undo: closed_groups(h).push(g), redo: h.redo.drop_last(), open: None },
                apply_all(t, g.ops),
                g.cursor_after,
            ),
        )
    }
}

/// The open group, when there is one, holds at least one op.
pub open spec fn open_nonempty(h: HistoryV) -> bool {
    h.open is Some ==> h.open->0.ops.len() > 0
}

/// Closing the open group keeps the history consistent.
pub proof fn lemma_commit_consistent(h: HistoryV, t: Seq<char>)
    requires
        consistent(h, t),
    ensures
        consistent(commit_spec(h), t),
{
}

/// Recording an op that describes the text keeps the history consistent
/// with the text the op produced.
pub proof fn lemma_record_consistent(h: HistoryV, t: Seq<char>, op: OpV, before: nat, after: nat)
    requires
        consistent(h, t),
        describes(t, op),
    ensures
        consistent(record_spec(h, op, before, after), apply(t, op)),
{
    let h2 = record_spec(h, op, before, after);
    let u = apply(t, op);
    lemma_op_roundtrip(t, op);
    let g2 = h2.open->0;
    assert(closed_groups(h2).last() == g2);
    assert(closed_groups(h2).drop_last() =~= h.undo);
    assert(g2.ops.last() == op);
    match h.open {
        Some(g) => {
            assert(g2.ops.drop_last() =~= g.ops);
            assert(closed_groups(h).last() == g);
            assert(closed_groups(h).drop_last() =~= h.undo);
            assert(unapply_describes(t, g.ops));
            assert(apply(u, invert(op)) == t);
            assert(unapply_describes(u, g2.ops));
            assert(unapply_all(u, g2.ops) == unapply_all(t, g.ops));
        },
        None => {
            assert(g2.ops.drop_last() =~= Seq::<OpV>::empty());
            assert(closed_groups(h) =~= h.undo);
            assert(unapply_describes(t, Seq::<OpV>::empty()));
            assert(unapply_all(t, Seq::<OpV>::empty()) == t);
            assert(unapply_describes(u, g2.ops));
            assert(unapply_all(u, g2.ops) == t);
        },
    }
    assert(undo_chain(apply(t, op), closed_groups(h2)));
    assert(redo_chain(apply(t, op), h2.redo));
}

/// Undo keeps the history consistent with the text it leaves.
pub proof fn lemma_undo_consistent(h: HistoryV, t: Seq<char>)
    requires
        consistent(h, t),
        undo_spec(h, t) is Some,
    ensures
        ({
            let (h2, t2, _) = undo_spec(h, t)->0;
            consistent(h2, t2)
        }),
{
    let c = closed_groups(h);
    let g = c.last();
    let t2 = unapply_all(t, g.ops);
    let (h2, _, _) = undo_spec(h, t)->0;
    lemma_redo_after_undo(t, g.ops);
    assert(closed_groups(h2) =~= c.drop_last());
    assert(h2.redo.drop_last() =~= h.redo);
}

/// Redo keeps the history consistent with the text it leaves.
pub proof fn lemma_redo_consistent(h: HistoryV, t: Seq<char>)
    requires
        consistent(h, t),
        redo_spec(h, t) is Some,
    ensures
        ({
            let (h2, t2, _) = redo_spec(h, t)->0;
            consistent(h2, t2)
        }),
{
    let g = h.redo.last();
    let (h2, _, _) = redo_spec(h, t)->0;
    lemma_undo_after_do(t, g.ops);
    assert(closed_groups(h2).drop_last() =~= closed_groups(h));
}

/// Undo then redo restores both the text and the history.
pub proof fn lemma_undo_then_redo(h: HistoryV, t: Seq<char>)
    requires
        consistent(h, t),
        undo_spec(h, t) is Some,
    ensures
        ({
            let (h1, t1, _) = undo_spec(h, t)->0;
            &&& redo_spec(h1, t1) is Some
            &&& (redo_spec(h1, t1)->0).1 == t
            &&& (redo_spec(h1, t1)->0).0 == commit_spec(h)
        }),
{
    let c = closed_groups(h);
    let g = c.last();
    lemma_redo_after_undo(t, g.ops);
    let (h1, t1, _) = undo_spec(h, t)->0;
    assert(h1.redo.drop_last() =~= h.redo);
    assert(c.drop_last().push(g) =~= c);
}

/// Redo then undo restores the text, and the group waits to be redone again.
pub proof fn lemma_redo_then_undo(h: HistoryV, t: Seq<char>)
    requires
        consistent(h, t),
        redo_spec(h, t) is Some,
    ensures
        ({
            let (h1, t1, _) = redo_spec(h, t)->0;
            &&& undo_spec(h1, t1) is Some
            &&& (undo_spec(h1, t1)->0).1 == t
            &&& (undo_spec(h1, t1)->0).0 == commit_spec(h)
        }),
{
    let g = h.redo.last();
    lemma_undo_after_do(t, g.ops);
    let (h1, t1, _) = redo_spec(h, t)->0;
    assert(closed_groups(h1).drop_last() =~= closed_groups(h));
    assert(h.redo.drop_last().push(g) =~= h.redo);
}

impl EditOp {
    fn inverted(&self) -> (r: EditOp)
        ensures
            r@ == invert(self@),
    {
        match self {
            EditOp::Insert { at, text } => EditOp::Remove { at: *at, text: text.clone() },
            EditOp::Remove { at, text } => EditOp::Insert { at: *at, text: text.clone() },
        }
    }

    fn apply(&self, buffer: &mut Buffer)
        requires
            in_bounds(old(buffer)@, self@),
        ensures
            final(buffer)@ == apply(old(buffer)@, self@),
    {
        match self {
            EditOp::Insert { at, text } => buffer.insert(*at, text.as_str()),
            EditOp::Remove { at, text } => {
                let n = chars_of(text.as_str()).len();
                let _len = buffer.len_chars();
                buffer.remove(*at..*at + n);
            },
        }
    }
}

#[derive(Debug)]
pub struct History {
    undo: Vec<EditGroup>,
    redo: Vec<EditGroup>,
    open: Option<EditGroup>,
}

impl View for History {
    type V = HistoryV;

    closed spec fn view(&self) -> HistoryV {
        HistoryV {
            undo: self.undo@.map_values(|g: EditGroup| g@),
            redo: self.redo@.map_values(|g: EditGroup| g@),
            open: match self.open {
                Some(g) => Some(g@),
                None => None,
            },
        }
    }
}

impl History {
    pub fn new() -> (h: Self)
        ensures
            h@ == (HistoryV { undo: Seq::empty(), redo: Seq::empty(), open: None }),
    {
        let h = History { undo: Vec::new(), redo: Vec::new(), open: None };
        assert(h@.undo =~= Seq::empty());
        assert(h@.redo =~= Seq::empty());
        h
    }

    /// Record an already-applied operation into the open group.
    pub fn record(&mut self, op: EditOp, cursor_before: usize, cursor_after: usize)
        ensures
            final(self)@ == record_spec(old(self)@, op@, cursor_before as nat, cursor_after as nat),
    {
        let ghost opv = op@;
        self.redo.clear();
        match self.open.take() {
            Some(mut group) => {
                group.ops.push(op);
                group.cursor_after = cursor_after;
                self.open = Some(group);
                assert(self@.open->0.ops =~= old(self)@.open->0.ops.push(opv));
            },
            None => {
                let mut ops = Vec::new();
                ops.push(op);
                self.open = Some(EditGroup { ops, cursor_before, cursor_after });
                assert(self@.open->0.ops =~= seq![opv]);
            },
        }
        assert(self@.redo =~= Seq::empty());
    }

    /// The last operation of the open group, if any (used for grouping
    /// heuristics).
    pub fn open_last_op(&self) -> (r: Option<&EditOp>)
        ensures
            r is Some <==> (self@.open is Some && self@.open->0.ops.len() > 0),
            r is Some ==> r->0@ == self@.open->0.ops.last(),
    {
        match &self.open {
            Some(g) => {
                if g.ops.len() > 0 {
                    Some(&g.ops[g.ops.len() - 1])
                } else {
                    None
                }
            },
            None => None,
        }
    }

    /// Close the open group so the next edit starts a new one.
    pub fn commit(&mut self)
        ensures
            final(self)@ == commit_spec(old(self)@),
    {
        if let Some(group) = self.open.take() {
            self.undo.push(group);
            assert(self@.undo =~= old(self)@.undo.push(old(self)@.open->0));
        }
    }

    /// Undo one group. Returns the cursor position to restore.
    pub fn undo(&mut self, buffer: &mut Buffer) -> (pos: Option<usize>)
        requires
            closed_groups(old(self)@).len() > 0 ==> unapply_in_bounds(
                old(buffer)@,
                closed_groups(old(self)@).last().ops,
            ),
        ensures
            match undo_spec(old(self)@, old(buffer)@) {
                None => pos is None && final(self)@ == commit_spec(old(self)@) && final(buffer)@
                    == old(buffer)@,
                Some((h, t, c)) => pos is Some && pos->0 as nat == c && final(self)@ == h
                    && final(buffer)@ == t,
            },
    {
        self.commit();
        let ghost t0 = buffer@;
        let group = match self.undo.pop() {
            Some(g) => g,
            None => return None,
        };
        let ghost ops = group@.ops;
        assert(group@ == closed_groups(old(self)@).last());
        let mut i: usize = group.ops.len();
        assert(ops.take(i as int) =~= ops);
        while i > 0
            invariant
                i <= group.ops.len(),
                ops == group@.ops,
                unapply_in_bounds(buffer@, ops.take(i as int)),
                unapply_all(buffer@, ops.take(i as int)) == unapply_all(t0, ops),
            decreases i,
        {
            let inv = group.ops[i - 1].inverted();
            assert(ops.take(i as int).last() == ops[i - 1]);
            assert(ops.take(i as int).drop_last() =~= ops.take(i - 1));
            inv.apply(buffer);
            i = i - 1;
        }
        let pos = group.cursor_before;
        let ghost gv = group@;
        self.redo.push(group);
        assert(self@.redo =~= old(self)@.redo.push(gv));
        assert(self@.undo =~= closed_groups(old(self)@).drop_last());
        assert(ops.take(0) =~= Seq::<OpV>::empty());
        assert(unapply_all(buffer@, ops.take(0)) == buffer@);
        Some(pos)
    }

    /// Redo one group. Returns the cursor position to restore.
    pub fn redo(&mut self, buffer: &mut Buffer) -> (pos: Option<usize>)
        requires
            old(self)@.redo.len() > 0 ==> all_in_bounds(old(buffer)@, old(self)@.redo.last().ops),
        ensures
            match redo_spec(old(self)@, old(buffer)@) {
                None => pos is None && final(self)@ == commit_spec(old(self)@) && final(buffer)@
                    == old(buffer)@,
                Some((h, t, c)) => pos is Some && pos->0 as nat == c && final(self)@ == h
                    && final(buffer)@ == t,
            },
    {
        self.commit();
        let ghost t0 = buffer@;
        let group = match self.redo.pop() {
            Some(g) => g,
            None => return None,
        };
        let ghost ops = group@.ops;
        assert(group@ == old(self)@.redo.last());
        let mut i: usize = 0;
        assert(ops.skip(0) =~= ops);
        while i < group.ops.len()
            invariant
                i <= group.ops.len(),
                ops == group@.ops,
                all_in_bounds(buffer@, ops.skip(i as int)),
                apply_all(buffer@, ops.skip(i as int)) == apply_all(t0, ops),
            decreases group.ops.len() - i,
        {
            assert(ops.skip(i as int)[0] == ops[i as int]);
            assert(ops.skip(i as int).drop_first() =~= ops.skip(i + 1));
            group.ops[i].apply(buffer);
            i = i + 1;
        }
        assert(ops.skip(0) =~= ops);
        assert(ops.skip(i as int) =~= Seq::<OpV>::empty());
        let pos = group.cursor_after;
        let ghost gv = group@;
        self.undo.push(group);
        assert(self@.undo =~= closed_groups(old(self)@).push(gv));
        assert(self@.redo =~= old(self)@.redo.drop_last());
        Some(pos)
    }

    pub fn can_undo(&self) -> (b: bool)
        ensures
            b == (closed_groups(self@).len() > 0),
    {
        self.open.is_some() || self.undo.len() > 0
    }

    pub fn can_redo(&self) -> (b: bool)
        ensures
            b == (self@.redo.len() > 0),
    {
        self.redo.len() > 0
    }
}

/// The history after recording each of `rs` (an op with the cursor before
/// and after it) in turn.
pub open spec fn record_each(h: HistoryV, rs: Seq<(OpV, nat, nat)>) -> HistoryV
    decreases rs.len(),
{
    if rs.len() == 0 {
        h
    } else {
        let (op, before, after) = rs.last();
        record_spec(record_each(h, rs.drop_last()), op, before, after)
    }
}

/// The ops of `rs`.
pub open spec fn ops_of(rs: Seq<(OpV, nat, nat)>) -> Seq<OpV> {
    rs.map_values(|r: (OpV, nat, nat)| r.0)
}

proof fn lemma_record_each(h: HistoryV, rs: Seq<(OpV, nat, nat)>)
    requires
        h.open is None,
        rs.len() > 0,
    ensures
        record_each(h, rs) == (HistoryV {
            undo: h.undo,
            redo: Seq::empty(),
            open: Some(GroupV { ops: ops_of(rs), cursor_before: rs[0].1, cursor_after: rs.last().2 }),
        }),
    decreases rs.len(),
{
    let p = rs.drop_last();
    if p.len() > 0 {
        lemma_record_each(h, p);
        assert(ops_of(p).push(rs.last().0) =~= ops_of(rs));
        assert(p[0] == rs[0]);
    } else {
        assert(record_each(h, p) == h);
        assert(ops_of(rs) =~= seq![rs[0].0]);
        assert(rs.last() == rs[0]);
    }
}

/// `can_undo` answers exactly whether the next undo does something, and a
/// new history has nothing to undo.
pub proof fn lemma_can_undo_exactly(h: HistoryV, t: Seq<char>)
    ensures
        (closed_groups(h).len() > 0) == undo_spec(h, t) is Some,
        closed_groups(HistoryV { undo: Seq::empty(), redo: Seq::empty(), open: None }).len() == 0,
{
}

/// After a commit, undo or redo (or from new), edits applied to the text
/// and recorded one by one are taken back by one undo: it gives back the
/// text from before them, returns the cursor from before the first, leaves
/// them to redo, and no group open.
pub proof fn lemma_undo_takes_back_recorded_edits(h: HistoryV, t0: Seq<char>, rs: Seq<(OpV, nat, nat)>)
    requires
        h.open is None,
        rs.len() > 0,
        all_describe(t0, ops_of(rs)),
    ensures
        ({
            let r = undo_spec(record_each(h, rs), apply_all(t0, ops_of(rs)));
            let (h2, t2, c) = r->0;
            &&& r is Some
            &&& t2 == t0
            &&& c == rs[0].1
            &&& h2.redo.len() > 0
            &&& h2.open is None
        }),
{
    lemma_record_each(h, rs);
    lemma_undo_after_do(t0, ops_of(rs));
    let h1 = record_each(h, rs);
    assert(closed_groups(h1).last().ops == ops_of(rs));
}

/// A consistent history can always run its next undo.
pub proof fn lemma_consistent_undo_in_bounds(h: HistoryV, t: Seq<char>)
    requires
        consistent(h, t),
    ensures
        closed_groups(h).len() > 0 ==> unapply_in_bounds(t, closed_groups(h).last().ops),
        h.redo.len() > 0 ==> all_in_bounds(t, h.redo.last().ops),
{
    if closed_groups(h).len() > 0 {
        lemma_unapply_describes_in_bounds(t, closed_groups(h).last().ops);
    }
    if h.redo.len() > 0 {
        lemma_all_describe_in_bounds(t, h.redo.last().ops);
    }
}

} // verus!
