//! Grapheme-aware cursor, selection, and movement primitives.
//!
//! Positions are char indices into the buffer, but movement always lands on
//! grapheme cluster boundaries, so combining accents, emoji (including ZWJ
//! sequences), and CJK behave as single visual units.

use vstd::prelude::*;
use std::ops::Range;
use crate::buffer::{Buffer, breaks_before, line_start, line_text, line_count, lemma_line_of, lemma_line_start};
use crate::segment::{
    graphemes_of, word_bounds_of, has_alnum, seg_start, concat_all, views, graphemes, word_bounds,
    is_partition,
    piece_offsets, seq_has_alnum, lemma_concat_take, lemma_seg_start_bounds,
};
use crate::text::{chars_of, string_of_range};

verus! {

#[derive(Debug, Clone, Copy, Default, PartialEq, Eq)]
pub struct Cursor {
    /// Position as a char index into the buffer.
    pub pos: usize,
    /// Selection anchor (char index). `None` means no selection.
    pub anchor: Option<usize>,
    /// Preferred grapheme column for vertical movement (sticky column).
    pub sticky_col: Option<usize>,
}

/// The selected range `[start, end)`, when the anchor differs from the
/// position.
pub open spec fn selection_of(c: Cursor) -> Option<(nat, nat)> {
    match c.anchor {
        Some(a) => if a < c.pos {
            Some((a as nat, c.pos as nat))
        } else if a > c.pos {
            Some((c.pos as nat, a as nat))
        } else {
            None
        },
        None => None,
    }
}

pub open spec fn range_view(r: Option<Range<usize>>) -> Option<(nat, nat)> {
    match r {
        Some(r) => Some((r.start as nat, r.end as nat)),
        None => None,
    }
}

impl Cursor {
    /// The selected char range, if a non-empty selection exists.
    pub fn selection(&self) -> (r: Option<Range<usize>>)
        ensures
            range_view(r) == selection_of(*self),
    {
        match self.anchor {
            Some(a) => {
                if a < self.pos {
                    Some(a..self.pos)
                } else if a > self.pos {
                    Some(self.pos..a)
                } else {
                    None
                }
            },
            None => None,
        }
    }
}

/// The largest piece start below `t` (0 if none).
pub open spec fn prev_start(gs: Seq<Seq<char>>, t: int) -> int
    decreases gs.len(),
{
    if gs.len() == 0 {
        0
    } else if seg_start(gs, gs.len() - 1) < t {
        seg_start(gs, gs.len() - 1)
    } else {
        prev_start(gs.drop_last(), t)
    }
}

/// A previous cluster start is never negative.
pub proof fn lemma_prev_start_nonneg(gs: Seq<Seq<char>>, t: int)
    ensures
        0 <= prev_start(gs, t),
    decreases gs.len(),
{
    if gs.len() > 0 {
        lemma_prev_start_nonneg(gs.drop_last(), t);
    }
}

/// Where the piece that starts exactly at `t` ends, if one does.
pub open spec fn end_of_piece_at(gs: Seq<Seq<char>>, t: int) -> Option<int>
    decreases gs.len(),
{
    if gs.len() == 0 {
        None
    } else if seg_start(gs, gs.len() - 1) == t {
        Some(seg_start(gs, gs.len() - 1) + gs.last().len())
    } else {
        end_of_piece_at(gs.drop_last(), t)
    }
}

/// The start of the last piece holding a letter or digit that starts
/// before `t`.
pub open spec fn prev_word_start(gs: Seq<Seq<char>>, t: int) -> Option<int>
    decreases gs.len(),
{
    if gs.len() == 0 {
        None
    } else if seg_start(gs, gs.len() - 1) < t && has_alnum(gs.last()) {
        Some(seg_start(gs, gs.len() - 1))
    } else {
        prev_word_start(gs.drop_last(), t)
    }
}

/// The end of the first piece (from piece `i` on) that holds a letter or
/// digit and ends after `t`.
pub open spec fn next_word_end(gs: Seq<Seq<char>>, t: int, i: int) -> Option<int>
    decreases gs.len() - i,
{
    if i < 0 || i >= gs.len() {
        None
    } else if seg_start(gs, i + 1) > t && has_alnum(gs[i]) {
        Some(seg_start(gs, i + 1))
    } else {
        next_word_end(gs, t, i + 1)
    }
}

/// The grapheme boundary immediately before `pos` in `s` (0 at the start;
/// a line start steps back over the previous line's break).
pub open spec fn prev_grapheme_spec(s: Seq<char>, pos: int) -> int {
    if pos <= 0 {
        0
    } else {
        let l = breaks_before(s, pos);
        let ls = line_start(s, l);
        if pos == ls {
            pos - 1
        } else {
            ls + prev_start(graphemes_of(line_text(s, l)), pos - ls)
        }
    }
}

/// The grapheme boundary immediately after `pos` in `s` (the end at the
/// end; a position inside a cluster steps one char).
pub open spec fn next_grapheme_spec(s: Seq<char>, pos: int) -> int {
    if pos >= s.len() {
        s.len() as int
    } else {
        let l = breaks_before(s, pos);
        let ls = line_start(s, l);
        match end_of_piece_at(graphemes_of(line_text(s, l)), pos - ls) {
            Some(e) => ls + e,
            None => pos + 1,
        }
    }
}

/// Start of the word before `pos`, crossing lines as needed (0 if none).
pub open spec fn prev_word_spec(s: Seq<char>, pos: int) -> int
    decreases pos,
{
    if pos <= 0 || pos > s.len() {
        0
    } else {
        let l = breaks_before(s, pos);
        let ls = line_start(s, l);
        proof {
            lemma_line_of(s, pos);
            lemma_line_start(s, l);
        }
        if pos == ls {
            prev_word_spec(s, pos - 1)
        } else {
            match prev_word_start(word_bounds_of(line_text(s, l)), pos - ls) {
                Some(b) => ls + b,
                None => prev_word_spec(s, ls),
            }
        }
    }
}

/// End of the word at or after `pos`, crossing lines as needed (the end of
/// the text if none).
pub open spec fn next_word_spec(s: Seq<char>, pos: int) -> int
    decreases s.len() - pos,
{
    if pos < 0 || pos >= s.len() {
        s.len() as int
    } else {
        let l = breaks_before(s, pos);
        let ls = line_start(s, l);
        let line = line_text(s, l);
        proof {
            lemma_line_of(s, pos);
            lemma_line_start(s, l);
            lemma_line_start(s, l + 1);
        }
        match next_word_end(word_bounds_of(line), pos - ls, 0) {
            Some(e) => ls + e,
            None => next_word_spec(s, ls + line.len()),
        }
    }
}

/// Grapheme column of `pos`: the clusters in its line before it.
pub open spec fn grapheme_col_spec(s: Seq<char>, pos: int) -> int {
    let l = breaks_before(s, pos);
    graphemes_of(line_text(s, l).take(pos - line_start(s, l))).len() as int
}

/// Line `l` without one trailing LF.
pub open spec fn line_content(s: Seq<char>, l: nat) -> Seq<char> {
    let t = line_text(s, l);
    if t.len() > 0 && t.last() == '\n' {
        t.drop_last()
    } else {
        t
    }
}

/// The char position at grapheme column `col` of line `l`, clamped to the
/// end of the line's content.
pub open spec fn pos_at_col_spec(s: Seq<char>, l: nat, col: int) -> int {
    let c = line_content(s, l);
    let gs = graphemes_of(c);
    line_start(s, l) + if 0 <= col < gs.len() {
        seg_start(gs, col)
    } else {
        c.len() as int
    }
}

proof fn lemma_line_text_len(s: Seq<char>, l: nat)
    ensures
        line_text(s, l).len() == line_start(s, l + 1) - line_start(s, l),
        line_start(s, l + 1) <= s.len(),
{
    lemma_line_start(s, l);
    lemma_line_start(s, l + 1);
}

/// The line of `pos` and its text, with the position's offset in it.
pub fn line_at(buffer: &Buffer, pos: usize) -> (r: (usize, usize, Vec<char>, String))
    requires
        pos <= buffer@.len(),
    ensures
        r.0 == breaks_before(buffer@, pos as int),
        r.1 == line_start(buffer@, r.0 as nat),
        r.1 <= pos,
        r.2@ == line_text(buffer@, r.0 as nat),
        r.3@ == line_text(buffer@, r.0 as nat),
        pos < buffer@.len() ==> pos < r.1 + r.2.len(),
        r.1 + r.2.len() <= buffer@.len(),
        buffer@.len() <= usize::MAX,
{
    let _len = buffer.len_chars();
    let l = buffer.char_to_line(pos);
    let ls = buffer.line_to_char(l);
    let line = buffer.line(l);
    let chars = chars_of(line.as_str());
    proof {
        lemma_line_of(buffer@, pos as int);
        lemma_line_text_len(buffer@, l as nat);
    }
    (l, ls, chars, line)
}

/// The grapheme boundary immediately before `pos` (0 if already at start).
pub fn prev_grapheme_boundary(buffer: &Buffer, pos: usize) -> (r: usize)
    requires
        pos <= buffer@.len(),
    ensures
        r == prev_grapheme_spec(buffer@, pos as int),
        r <= pos,
        pos > 0 ==> r < pos,
{
    if pos == 0 {
        return 0;
    }
    let (l, ls, chars, line) = line_at(buffer, pos);
    if pos == ls {
        return pos - 1;
    }
    let target = pos - ls;
    let pieces = graphemes(line.as_str());
    let ghost gs = views(pieces@);
    let (starts, _) = piece_offsets(&pieces, chars.len());
    let mut best: usize = 0;
    let mut i: usize = 0;
    assert(gs.take(0) =~= Seq::<Seq<char>>::empty());
    while i < pieces.len()
        invariant
            gs == views(pieces@),
            i <= pieces.len(),
            starts.len() == pieces.len() + 1,
            forall|k: int| 0 <= k <= pieces.len() ==> starts@[k] == seg_start(gs, k),
            best == prev_start(gs.take(i as int), target as int),
            best < target,
        decreases pieces.len() - i,
    {
        proof {
            let t1 = gs.take(i + 1);
            assert(t1.drop_last() =~= gs.take(i as int));
            assert(t1.take(i as int) =~= gs.take(i as int));
            assert(t1.len() - 1 == i);
            assert(seg_start(t1, i as int) == seg_start(gs, i as int));
        }
        if starts[i] < target {
            best = starts[i];
        }
        i = i + 1;
    }
    assert(gs.take(pieces.len() as int) =~= gs);
    ls + best
}

/// The grapheme boundary immediately after `pos` (clamped to buffer length).
pub fn next_grapheme_boundary(buffer: &Buffer, pos: usize) -> (r: usize)
    requires
        pos <= buffer@.len(),
    ensures
        r == next_grapheme_spec(buffer@, pos as int),
        pos < buffer@.len() ==> pos < r <= buffer@.len(),
        pos == buffer@.len() ==> r == pos,
{
    let len = buffer.len_chars();
    if pos >= len {
        return len;
    }
    let (l, ls, chars, line) = line_at(buffer, pos);
    let target = pos - ls;
    let pieces = graphemes(line.as_str());
    let ghost gs = views(pieces@);
    let (starts, _) = piece_offsets(&pieces, chars.len());
    let mut found: Option<usize> = None;
    let mut i: usize = 0;
    assert(gs.take(0) =~= Seq::<Seq<char>>::empty());
    while i < pieces.len()
        invariant
            gs == views(pieces@),
            concat_all(gs).len() == chars.len(),
            i <= pieces.len(),
            starts.len() == pieces.len() + 1,
            forall|k: int| 0 <= k <= pieces.len() ==> starts@[k] == seg_start(gs, k),
            is_partition(gs, chars@),
            match end_of_piece_at(gs.take(i as int), target as int) {
                Some(e) => found == Some(e as usize) && target < e <= chars.len(),
                None => found is None,
            },
        decreases pieces.len() - i,
    {
        proof {
            let t1 = gs.take(i + 1);
            assert(t1.drop_last() =~= gs.take(i as int));
            assert(t1.take(i as int) =~= gs.take(i as int));
            assert(t1.last() == gs[i as int]);
            assert(t1.len() - 1 == i);
            assert(seg_start(t1, i as int) == seg_start(gs, i as int));
            lemma_concat_take(gs, i as int);
            lemma_seg_start_bounds(gs, i + 1);
        }
        if starts[i] == target {
            found = Some(starts[i + 1]);
        }
        i = i + 1;
    }
    assert(gs.take(pieces.len() as int) =~= gs);
    match found {
        Some(e) => ls + e,
        None => pos + 1,
    }
}

/// Start of the word before `pos` (crossing lines if needed).
#[verifier::loop_isolation(false)]
pub fn prev_word_boundary(buffer: &Buffer, pos: usize) -> (r: usize)
    requires
        pos <= buffer@.len(),
    ensures
        r == prev_word_spec(buffer@, pos as int),
        r <= pos,
{
    let mut pos = pos;
    let ghost p0 = pos;
    while pos > 0
        invariant
            pos <= p0 <= buffer@.len(),
            prev_word_spec(buffer@, pos as int) == prev_word_spec(buffer@, p0 as int),
        decreases pos,
    {
        let (l, ls, chars, line) = line_at(buffer, pos);
        if pos == ls {
            pos = pos - 1;
            continue;
        }
        let target = pos - ls;
        let pieces = word_bounds(line.as_str());
        let ghost gs = views(pieces@);
        let (starts, pchars) = piece_offsets(&pieces, chars.len());
        let mut best: Option<usize> = None;
        let mut i: usize = 0;
        assert(gs.take(0) =~= Seq::<Seq<char>>::empty());
        while i < pieces.len()
            invariant
                gs == views(pieces@),
                i <= pieces.len(),
                starts.len() == pieces.len() + 1,
                pchars.len() == pieces.len(),
                forall|k: int| 0 <= k <= pieces.len() ==> starts@[k] == seg_start(gs, k),
                forall|k: int| 0 <= k < pieces.len() ==> (#[trigger] pchars@[k])@ == gs[k],
                match prev_word_start(gs.take(i as int), target as int) {
                    Some(b) => best == Some(b as usize) && 0 <= b < target,
                    None => best is None,
                },
            decreases pieces.len() - i,
        {
            proof {
                let t1 = gs.take(i + 1);
                assert(t1.drop_last() =~= gs.take(i as int));
                assert(t1.take(i as int) =~= gs.take(i as int));
                assert(t1.last() == gs[i as int]);
                assert(t1.len() - 1 == i);
                assert(seg_start(t1, i as int) == seg_start(gs, i as int));
            }
            if starts[i] < target && seq_has_alnum(&pchars[i]) {
                best = Some(starts[i]);
            }
            i = i + 1;
        }
        assert(gs.take(pieces.len() as int) =~= gs);
        if let Some(b) = best {
            return ls + b;
        }
        pos = ls;
    }
    0
}

/// End of the word at/after `pos` (crossing lines if needed).
#[verifier::loop_isolation(false)]
pub fn next_word_boundary(buffer: &Buffer, pos: usize) -> (r: usize)
    requires
        pos <= buffer@.len(),
    ensures
        r == next_word_spec(buffer@, pos as int),
        pos <= r <= buffer@.len(),
{
    let len = buffer.len_chars();
    let mut pos = pos;
    let ghost p0 = pos;
    while pos < len
        invariant
            p0 <= pos <= len,
            len == buffer@.len(),
            next_word_spec(buffer@, pos as int) == next_word_spec(buffer@, p0 as int),
        decreases len - pos,
    {
        let (l, ls, chars, line) = line_at(buffer, pos);
        let target = pos - ls;
        let pieces = word_bounds(line.as_str());
        let ghost gs = views(pieces@);
        let (starts, pchars) = piece_offsets(&pieces, chars.len());
        let mut i: usize = 0;
        while i < pieces.len()
            invariant
                gs == views(pieces@),
                concat_all(gs).len() == chars.len(),
                i <= pieces.len(),
                starts.len() == pieces.len() + 1,
                pchars.len() == pieces.len(),
                forall|k: int| 0 <= k <= pieces.len() ==> starts@[k] == seg_start(gs, k),
                forall|k: int| 0 <= k < pieces.len() ==> (#[trigger] pchars@[k])@ == gs[k],
                next_word_end(gs, target as int, i as int) == next_word_end(gs, target as int, 0),
                ls + chars.len() <= len,
            decreases pieces.len() - i,
        {
            proof {
                lemma_seg_start_bounds(gs, i + 1);
            }
            if starts[i + 1] > target && seq_has_alnum(&pchars[i]) {
                assert(ls + starts[i + 1] <= len);
                return ls + starts[i + 1];
            }
            i = i + 1;
        }
        pos = ls + chars.len();
    }
    len
}

/// The grapheme column of `pos` within its line.
pub fn grapheme_col(buffer: &Buffer, pos: usize) -> (r: usize)
    requires
        pos <= buffer@.len(),
    ensures
        r == grapheme_col_spec(buffer@, pos as int),
{
    let (l, ls, chars, line) = line_at(buffer, pos);
    let upto = pos - ls;
    let prefix = if upto <= chars.len() {
        string_of_range(&chars, 0, upto)
    } else {
        string_of_range(&chars, 0, chars.len())
    };
    proof {
        if pos == buffer@.len() {
            lemma_line_text_len(buffer@, l as nat);
            lemma_line_start(buffer@, l as nat + 1);
            assert(upto <= chars.len()) by {
                lemma_line_end_reaches(buffer@, l as nat, pos as int);
            }
        }
        assert(chars@.take(upto as int) == line_text(buffer@, l as nat).take(upto as int));
        if upto <= chars.len() {
            assert(chars@.subrange(0, upto as int) =~= chars@.take(upto as int));
        }
    }
    graphemes(prefix.as_str()).len()
}

/// The last line reaches the end of the text.
proof fn lemma_line_end_reaches(s: Seq<char>, l: nat, pos: int)
    requires
        pos == s.len(),
        l == breaks_before(s, pos),
    ensures
        line_start(s, l + 1) == s.len(),
{
    lemma_line_start(s, l + 1);
}

/// The char position at grapheme column `col` (clamped to line content) on
/// line `line_idx`.
pub fn pos_at_grapheme_col(buffer: &Buffer, line_idx: usize, col: usize) -> (r: usize)
    requires
        line_idx < line_count(buffer@),
    ensures
        r == pos_at_col_spec(buffer@, line_idx as nat, col as int),
        line_start(buffer@, line_idx as nat) <= r <= buffer@.len(),
{
    let _len = buffer.len_chars();
    let ls = buffer.line_to_char(line_idx);
    let line = buffer.line(line_idx);
    let chars = chars_of(line.as_str());
    proof {
        lemma_line_text_len(buffer@, line_idx as nat);
    }
    let n = chars.len();
    let clen = if n > 0 && chars[n - 1] == '\n' { n - 1 } else { n };
    let content = string_of_range(&chars, 0, clen);
    assert(content@ == line_content(buffer@, line_idx as nat)) by {
        if n > 0 && chars@[n - 1] == '\n' {
            assert(chars@.subrange(0, clen as int) =~= chars@.drop_last());
        } else {
            assert(chars@.subrange(0, clen as int) =~= chars@);
        }
    }
    let pieces = graphemes(content.as_str());
    let ghost gs = views(pieces@);
    let (starts, _) = piece_offsets(&pieces, clen);
    if col < pieces.len() {
        proof {
            lemma_seg_start_bounds(gs, col as int);
        }
        ls + starts[col]
    } else {
        ls + clen
    }
}

} // verus!
