//! Notes in the reading view. The view knows where each rendered block
//! starts in the source (byte offsets, ascending); a note belongs to the
//! last block starting at or before its anchor. From that: the marks drawn
//! beside blocks, the note under the pointer, the blocks that hold notes,
//! and where `[` / `]` jump.

use vstd::prelude::*;
use crate::drafts::notes::{Note, NoteState};

verus! {

/// A note as the reading view draws it beside its block.
#[derive(Debug, Clone)]
pub struct NoteMark {
    pub block: usize,
    pub body: String,
    pub resolved: bool,
    pub detached: bool,
}

/// The last block starting at or before `byte` (block 0 when none does).
pub open spec fn block_of_spec(offsets: Seq<usize>, byte: int) -> int
    decreases offsets.len(),
{
    if offsets.len() == 0 {
        0
    } else if offsets.last() <= byte {
        offsets.len() - 1
    } else {
        block_of_spec(offsets.drop_last(), byte)
    }
}

proof fn lemma_block_of_bounds(offsets: Seq<usize>, byte: int)
    ensures
        0 <= block_of_spec(offsets, byte),
        offsets.len() > 0 ==> block_of_spec(offsets, byte) < offsets.len(),
    decreases offsets.len(),
{
    if offsets.len() > 0 {
        lemma_block_of_bounds(offsets.drop_last(), byte);
    }
}

/// The block the note anchored at byte `byte` belongs to.
pub fn block_of(offsets: &[usize], byte: usize) -> (b: usize)
    ensures
        b == block_of_spec(offsets@, byte as int),
{
    let mut i: usize = offsets.len();
    assert(offsets@.take(i as int) =~= offsets@);
    while i > 0
        invariant
            i <= offsets@.len(),
            block_of_spec(offsets@, byte as int) == block_of_spec(offsets@.take(i as int), byte as int),
        decreases i,
    {
        assert(offsets@.take(i as int).drop_last() =~= offsets@.take(i - 1));
        assert(offsets@.take(i as int).last() == offsets@[i - 1]);
        if offsets[i - 1] <= byte {
            return i - 1;
        }
        i = i - 1;
    }
    0
}

/// The byte span of block `i` in a source of `source_len` bytes: from its
/// start to the next block's (or the end).
pub fn block_span(offsets: &[usize], i: usize, source_len: usize) -> (r: (usize, usize))
    ensures
        r.0 == (if i < offsets@.len() { offsets@[i as int] } else { 0 }),
        r.1 == (if i < offsets@.len() && i + 1 < offsets@.len() { offsets@[i + 1] } else { source_len }),
{
    let start = if i < offsets.len() { offsets[i] } else { 0 };
    let end = if i < offsets.len() && i + 1 < offsets.len() { offsets[i + 1] } else { source_len };
    (start, end)
}

/// The marks the reading view draws: one per note, on its block, when
/// notes are shown; none when they are hidden.
pub fn note_marks(offsets: &[usize], notes: &[Note], visible: bool) -> (r: Vec<NoteMark>)
    ensures
        !visible ==> r@.len() == 0,
        visible ==> r@.len() == notes@.len(),
        visible ==> forall|k: int|
            0 <= k < notes@.len() ==> {
                &&& (#[trigger] r@[k]).block == block_of_spec(offsets@, notes@[k].start as int)
                &&& r@[k].body@ == notes@[k].body@
                &&& r@[k].resolved == (notes@[k].state != NoteState::Open)
                &&& r@[k].detached == notes@[k].detached
            },
{
    let mut out: Vec<NoteMark> = Vec::new();
    if !visible {
        return out;
    }
    let mut k: usize = 0;
    while k < notes.len()
        invariant
            k <= notes@.len(),
            out@.len() == k,
            forall|j: int|
                0 <= j < k ==> {
                    &&& (#[trigger] out@[j]).block == block_of_spec(offsets@, notes@[j].start as int)
                    &&& out@[j].body@ == notes@[j].body@
                    &&& out@[j].resolved == (notes@[j].state != NoteState::Open)
                    &&& out@[j].detached == notes@[j].detached
                },
        decreases notes@.len() - k,
    {
        let n = &notes[k];
        let body = n.body.clone();
        out.push(NoteMark { block: block_of(offsets, n.start), body, resolved: !n.is_open(), detached: n.detached });
        k = k + 1;
    }
    out
}

/// The first note on `block`, as its id and body.
pub fn note_at_block(offsets: &[usize], notes: &[Note], block: usize) -> (r: Option<(String, String)>)
    ensures
        match r {
            Some((id, body)) => exists|k: int|
                0 <= k < notes@.len() && block_of_spec(offsets@, notes@[k].start as int) == block && id@
                    == notes@[k].id@ && body@ == notes@[k].body@ && forall|j: int|
                    0 <= j < k ==> block_of_spec(offsets@, (#[trigger] notes@[j]).start as int) != block,
            None => forall|k: int|
                0 <= k < notes@.len() ==> block_of_spec(offsets@, (#[trigger] notes@[k]).start as int) != block,
        },
{
    let mut k: usize = 0;
    while k < notes.len()
        invariant
            k <= notes@.len(),
            forall|j: int| 0 <= j < k ==> block_of_spec(offsets@, (#[trigger] notes@[j]).start as int) != block,
        decreases notes@.len() - k,
    {
        if block_of(offsets, notes[k].start) == block {
            let id = notes[k].id.clone();
            let body = notes[k].body.clone();
            return Some((id, body));
        }
        k = k + 1;
    }
    None
}

pub open spec fn increasing(s: Seq<usize>) -> bool {
    forall|i: int, j: int| 0 <= i < j < s.len() ==> s[i] < s[j]
}

/// The block of some note.
pub open spec fn noted(offsets: Seq<usize>, notes: Seq<Note>, b: int) -> bool {
    exists|k: int| 0 <= k < notes.len() && block_of_spec(offsets, (#[trigger] notes[k]).start as int) == b
}

/// `b` in the increasing `v`, where it is or would go.
fn insert_sorted(v: &mut Vec<usize>, b: usize)
    requires
        increasing(old(v)@),
    ensures
        increasing(final(v)@),
        forall|x: usize| final(v)@.contains(x) <==> (old(v)@.contains(x) || x == b),
{
    let mut i: usize = 0;
    while i < v.len() && v[i] < b
        invariant
            i <= v@.len(),
            v@ == old(v)@,
            increasing(v@),
            forall|j: int| 0 <= j < i ==> v@[j] < b,
        decreases v@.len() - i,
    {
        i = i + 1;
    }
    if i < v.len() && v[i] == b {
        assert(old(v)@[i as int] == b);
        assert(old(v)@.contains(b));
        return;
    }
    let ghost before = v@;
    assert(before == old(v)@);
    v.insert(i, b);
    assert(v@ =~= before.take(i as int).push(b) + before.skip(i as int));
    assert forall|x: usize| #[trigger] v@.contains(x) <==> (old(v)@.contains(x) || x == b) by {
        if v@.contains(x) {
            let k = choose|k: int| 0 <= k < v@.len() && v@[k] == x;
            if k < i {
                assert(before[k] == x);
            } else if k > i {
                assert(before[k - 1] == x);
            }
        }
        if before.contains(x) {
            let k = choose|k: int| 0 <= k < before.len() && before[k] == x;
            if k < i {
                assert(v@[k] == x);
            } else {
                assert(v@[k + 1] == x);
            }
        }
        if x == b {
            assert(v@[i as int] == b);
        }
    }
}

/// The blocks that hold notes, ascending, each once.
pub fn noted_blocks(offsets: &[usize], notes: &[Note]) -> (r: Vec<usize>)
    ensures
        increasing(r@),
        forall|x: usize| r@.contains(x) <==> noted(offsets@, notes@, x as int),
{
    let mut out: Vec<usize> = Vec::new();
    let mut k: usize = 0;
    while k < notes.len()
        invariant
            k <= notes@.len(),
            increasing(out@),
            forall|x: usize|
                out@.contains(x) <==> exists|j: int|
                    0 <= j < k && block_of_spec(offsets@, (#[trigger] notes@[j]).start as int) == x,
        decreases notes@.len() - k,
    {
        let b = block_of(offsets, notes[k].start);
        proof {
            lemma_block_of_bounds(offsets@, notes@[k as int].start as int);
        }
        insert_sorted(&mut out, b);
        assert forall|x: usize|
            out@.contains(x) <==> exists|j: int|
                0 <= j < k + 1 && block_of_spec(offsets@, (#[trigger] notes@[j]).start as int) == x by {
            if x == b {
                assert(block_of_spec(offsets@, notes@[k as int].start as int) == x);
            }
        }
        k = k + 1;
    }
    out
}

/// The first of `bs` after `cur`.
pub open spec fn first_after(bs: Seq<usize>, cur: int) -> Option<usize>
    decreases bs.len(),
{
    if bs.len() == 0 {
        None
    } else if bs[0] > cur {
        Some(bs[0])
    } else {
        first_after(bs.drop_first(), cur)
    }
}

/// The last of `bs` before `cur`.
pub open spec fn last_before(bs: Seq<usize>, cur: int) -> Option<usize>
    decreases bs.len(),
{
    if bs.len() == 0 {
        None
    } else if bs.last() < cur {
        Some(bs.last())
    } else {
        last_before(bs.drop_last(), cur)
    }
}

/// Where a jump from block `cur` lands among the noted blocks `bs`:
/// forward, the next one after it (wrapping to the first); backward, the
/// previous one (wrapping to the last); nowhere when there are none.
pub open spec fn jump_spec(bs: Seq<usize>, cur: int, forward: bool) -> Option<usize> {
    if bs.len() == 0 {
        None
    } else if forward {
        match first_after(bs, cur) {
            Some(b) => Some(b),
            None => Some(bs[0]),
        }
    } else {
        match last_before(bs, cur) {
            Some(b) => Some(b),
            None => Some(bs.last()),
        }
    }
}

/// `[` / `]` in the reading view: the noted block to jump to from `cur`
/// (forward for a positive `delta`).
pub fn note_jump(blocks: &[usize], cur: usize, delta: i32) -> (r: Option<usize>)
    ensures
        r == jump_spec(blocks@, cur as int, delta > 0),
{
    let n = blocks.len();
    if n == 0 {
        return None;
    }
    if delta > 0 {
        let mut i: usize = 0;
        assert(blocks@.skip(0) =~= blocks@);
        while i < n
            invariant
                n == blocks@.len(),
                i <= n,
                first_after(blocks@, cur as int) == first_after(blocks@.skip(i as int), cur as int),
                delta > 0,
            decreases n - i,
        {
            assert(blocks@.skip(i as int).drop_first() =~= blocks@.skip(i + 1));
            assert(blocks@.skip(i as int)[0] == blocks@[i as int]);
            if blocks[i] > cur {
                assert(first_after(blocks@.skip(i as int), cur as int) == Some(blocks@[i as int]));
                assert(delta > 0);
                return Some(blocks[i]);
            }
            i = i + 1;
        }
        Some(blocks[0])
    } else {
        let mut i: usize = n;
        assert(blocks@.take(n as int) =~= blocks@);
        while i > 0
            invariant
                n == blocks@.len(),
                i <= n,
                last_before(blocks@, cur as int) == last_before(blocks@.take(i as int), cur as int),
                delta <= 0,
            decreases i,
        {
            assert(blocks@.take(i as int).drop_last() =~= blocks@.take(i - 1));
            assert(blocks@.take(i as int).last() == blocks@[i - 1]);
            if blocks[i - 1] < cur {
                assert(last_before(blocks@.take(i as int), cur as int) == Some(blocks@[i - 1]));
                return Some(blocks[i - 1]);
            }
            i = i - 1;
        }
        Some(blocks[n - 1])
    }
}

/// The reading pointer moved by `delta` blocks, kept on one of `count`
/// blocks.
pub fn pointer_step(pointer: usize, delta: i32, count: usize) -> (r: usize)
    requires
        count > 0,
        count - 1 <= i32::MAX,
        pointer <= i32::MAX,
        i32::MIN <= pointer + delta <= i32::MAX,
    ensures
        r == (if pointer + delta < 0 {
            0
        } else if pointer + delta > count - 1 {
            count - 1
        } else {
            pointer + delta
        }),
{
    let last = (count - 1) as i32;
    let p = pointer as i32 + delta;
    if p < 0 {
        0
    } else if p > last {
        last as usize
    } else {
        p as usize
    }
}

} // verus!
