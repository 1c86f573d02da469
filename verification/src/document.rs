//! A document: buffer + cursor + history + file binding + autosave policy.
//! This is the API front-ends drive; it owns no UI and no clock, and does no
//! file I/O itself: the front-end reads and writes the file and tells the
//! document when it is bound to a path or saved.

use vstd::prelude::*;
use std::ops::Range;
use std::path::{Path, PathBuf};
use crate::buffer::{
    Buffer, breaks_before, line_count, line_start, line_content_len_of, lemma_line_of,
    lemma_line_start,
};
use crate::cursor::{
    Cursor, selection_of, range_view, prev_grapheme_boundary, next_grapheme_boundary,
    prev_word_boundary, next_word_boundary, grapheme_col, pos_at_grapheme_col, prev_grapheme_spec,
    next_grapheme_spec, prev_word_spec, next_word_spec, grapheme_col_spec, pos_at_col_spec,
};
use crate::history::{
    EditOp, History, HistoryV, OpV, consistent, closed_groups, commit_spec, record_spec,
    undo_spec, redo_spec, describes, apply, lemma_commit_consistent, lemma_record_consistent,
    lemma_undo_consistent, lemma_redo_consistent, lemma_consistent_undo_in_bounds,
    lemma_undo_then_redo, lemma_redo_then_undo, invert, unapply_all,
};
use crate::segment::{words_of, unicode_words, views};
use crate::text::{chars_of, string_of, is_ws, char_is_whitespace};
use crate::paths::as_path;

verus! {

/// A document as values.
pub struct DocV {
    pub text: Seq<char>,
    pub cursor: Cursor,
    pub history: HistoryV,
    pub dirty: bool,
}

/// Cursor and selection anchor lie within the text, and the history was
/// recorded on it.
pub open spec fn doc_wf(d: DocV) -> bool {
    &&& d.cursor.pos <= d.text.len()
    &&& (d.cursor.anchor matches Some(a) ==> a <= d.text.len())
    &&& consistent(d.history, d.text)
}

/// The cursor after moving to `pos`: extending keeps (or drops) an anchor
/// at the old position; plain movement clears it.
pub open spec fn set_cursor_spec(c: Cursor, pos: nat, extend: bool) -> Cursor {
    Cursor {
        pos: pos as usize,
        anchor: if extend {
            if c.anchor is None {
                Some(c.pos)
            } else {
                c.anchor
            }
        } else {
            None
        },
        sticky_col: c.sticky_col,
    }
}

/// A caret at `pos` with no selection and no sticky column.
pub open spec fn caret(pos: nat) -> Cursor {
    Cursor { pos: pos as usize, anchor: None, sticky_col: None }
}

/// The last op of the open undo group.
pub open spec fn open_last(h: HistoryV) -> Option<OpV> {
    match h.open {
        Some(g) => if g.ops.len() > 0 {
            Some(g.ops.last())
        } else {
            None
        },
        None => None,
    }
}

/// Word-sized grouping for an insertion of `t` at `pos`: a new group starts
/// when the insertion is not contiguous with the open group's last insert,
/// when a non-whitespace char follows whitespace, on newlines, or when the
/// group was deleting.
pub open spec fn insert_starts_group(h: HistoryV, pos: nat, t: Seq<char>) -> bool {
    match open_last(h) {
        None => false,
        Some(OpV::Ins(at, prev)) => {
            let contiguous = at + prev.len() == pos;
            let word_break = t.len() > 0 && !is_ws(t[0]) && prev.len() > 0 && is_ws(prev.last());
            let newline = t.contains('\n');
            !contiguous || word_break || newline
        },
        Some(OpV::Rem(_, _)) => true,
    }
}

/// A removal of `[s, e)` joins the open group only when it continues a run
/// of backspaces (ending where the last removal started) or of forward
/// deletes (starting there).
pub open spec fn remove_starts_group(h: HistoryV, s: nat, e: nat) -> bool {
    match open_last(h) {
        None => false,
        Some(OpV::Rem(at, _)) => at != e && at != s,
        Some(OpV::Ins(_, _)) => true,
    }
}

/// Insert `t` at the caret, as one recorded op (joining the open group when
/// `join`, else grouping by words).
pub open spec fn insert_at_cursor_spec(d: DocV, t: Seq<char>, join: bool) -> DocV {
    let h = if !join && insert_starts_group(d.history, d.cursor.pos as nat, t) {
        commit_spec(d.history)
    } else {
        d.history
    };
    let at = d.cursor.pos as nat;
    DocV {
        text: d.text.take(at as int) + t + d.text.skip(at as int),
        cursor: caret(at + t.len()),
        history: record_spec(h, OpV::Ins(at, t), at, at + t.len()),
        dirty: true,
    }
}

/// Remove `[s, e)`, as one recorded op.
pub open spec fn remove_range_spec(d: DocV, s: nat, e: nat) -> DocV {
    DocV {
        text: d.text.take(s as int) + d.text.skip(e as int),
        cursor: caret(s),
        history: record_spec(
            d.history,
            OpV::Rem(s, d.text.subrange(s as int, e as int)),
            d.cursor.pos as nat,
            s,
        ),
        dirty: true,
    }
}

/// Remove `[s, e)` after closing the group when the removal starts a new one.
pub open spec fn grouped_remove_spec(d: DocV, s: nat, e: nat) -> DocV {
    let d1 = if remove_starts_group(d.history, s, e) {
        DocV { history: commit_spec(d.history), ..d }
    } else {
        d
    };
    remove_range_spec(d1, s, e)
}

pub open spec fn with_history(d: DocV, h: HistoryV) -> DocV {
    DocV { history: h, ..d }
}

/// Typing `t`: replaces the selection (one undo group) or inserts at the
/// caret; nothing for empty `t`.
pub open spec fn insert_str_spec(d: DocV, t: Seq<char>) -> DocV {
    if t.len() == 0 {
        d
    } else {
        match selection_of(d.cursor) {
            Some((s, e)) => insert_at_cursor_spec(
                remove_range_spec(with_history(d, commit_spec(d.history)), s, e),
                t,
                true,
            ),
            None => insert_at_cursor_spec(d, t, false),
        }
    }
}

/// Select the whole text: the group closes, the anchor goes to the start
/// and the caret to the end.
pub open spec fn select_all_spec(d: DocV) -> DocV {
    DocV {
        history: commit_spec(d.history),
        cursor: Cursor { pos: d.text.len() as usize, anchor: Some(0), sticky_col: None },
        ..d
    }
}

/// `min(x, n)`.
pub open spec fn clamp(x: int, n: int) -> int {
    if x < n {
        x
    } else {
        n
    }
}

/// Replace the clamped range `[start, end)` with `t`, grouped like typing.
pub open spec fn replace_range_spec(d: DocV, start: nat, end: nat, t: Seq<char>) -> DocV {
    let len = d.text.len() as int;
    let s = clamp(start as int, len) as nat;
    let e = (if end < s {
        s as int
    } else {
        clamp(end as int, len)
    }) as nat;
    if s == e && t.len() == 0 {
        d
    } else {
        let d0 = DocV { cursor: Cursor { anchor: None, ..d.cursor }, ..d };
        let removed = s < e;
        let d1 = if removed {
            grouped_remove_spec(d0, s, e)
        } else {
            DocV { cursor: Cursor { pos: s as usize, ..d0.cursor }, ..d0 }
        };
        if t.len() > 0 {
            insert_at_cursor_spec(d1, t, removed)
        } else {
            d1
        }
    }
}

/// Backspace: removes the selection, or the grapheme cluster before the
/// caret.
pub open spec fn backspace_spec(d: DocV) -> DocV {
    match selection_of(d.cursor) {
        Some((s, e)) => remove_range_spec(with_history(d, commit_spec(d.history)), s, e),
        None => if d.cursor.pos == 0 {
            d
        } else {
            grouped_remove_spec(
                d,
                prev_grapheme_spec(d.text, d.cursor.pos as int) as nat,
                d.cursor.pos as nat,
            )
        },
    }
}

/// Delete forward: removes the selection, or the grapheme cluster after the
/// caret.
pub open spec fn delete_forward_spec(d: DocV) -> DocV {
    match selection_of(d.cursor) {
        Some((s, e)) => remove_range_spec(with_history(d, commit_spec(d.history)), s, e),
        None => if d.cursor.pos >= d.text.len() {
            d
        } else {
            grouped_remove_spec(
                d,
                d.cursor.pos as nat,
                next_grapheme_spec(d.text, d.cursor.pos as int) as nat,
            )
        },
    }
}

/// Undo: `None` when there was nothing to undo (the open group is closed
/// either way).
pub open spec fn doc_undo_spec(d: DocV) -> Option<DocV> {
    match undo_spec(d.history, d.text) {
        Some((h, t, c)) => Some(
            DocV { text: t, cursor: caret(clamp(c as int, t.len() as int) as nat), history: h, dirty: true },
        ),
        None => None,
    }
}

/// Redo: `None` when there was nothing to redo.
pub open spec fn doc_redo_spec(d: DocV) -> Option<DocV> {
    match redo_spec(d.history, d.text) {
        Some((h, t, c)) => Some(
            DocV { text: t, cursor: caret(clamp(c as int, t.len() as int) as nat), history: h, dirty: true },
        ),
        None => None,
    }
}

/// A movement: closes the undo group and moves the caret to `target`.
pub open spec fn move_spec(d: DocV, target: nat, extend: bool, sticky: Option<usize>) -> DocV {
    DocV {
        history: commit_spec(d.history),
        cursor: Cursor { sticky_col: sticky, ..set_cursor_spec(d.cursor, target, extend) },
        ..d
    }
}

pub open spec fn move_left_target(d: DocV, extend: bool) -> nat {
    match selection_of(d.cursor) {
        Some((s, _)) if !extend => s,
        _ => prev_grapheme_spec(d.text, d.cursor.pos as int) as nat,
    }
}

pub open spec fn move_right_target(d: DocV, extend: bool) -> nat {
    match selection_of(d.cursor) {
        Some((_, e)) if !extend => e,
        _ => next_grapheme_spec(d.text, d.cursor.pos as int) as nat,
    }
}

/// The column vertical movement aims for: the sticky one, else the caret's.
pub open spec fn goal_col(d: DocV) -> nat {
    match d.cursor.sticky_col {
        Some(c) => c as nat,
        None => grapheme_col_spec(d.text, d.cursor.pos as int) as nat,
    }
}

pub open spec fn move_up_target(d: DocV) -> nat {
    let line = breaks_before(d.text, d.cursor.pos as int);
    if line == 0 {
        0
    } else {
        pos_at_col_spec(d.text, (line - 1) as nat, goal_col(d) as int) as nat
    }
}

pub open spec fn move_down_target(d: DocV) -> nat {
    let line = breaks_before(d.text, d.cursor.pos as int);
    if line + 1 >= line_count(d.text) {
        d.text.len()
    } else {
        pos_at_col_spec(d.text, line + 1, goal_col(d) as int) as nat
    }
}

pub open spec fn line_end_target(d: DocV) -> nat {
    let line = breaks_before(d.text, d.cursor.pos as int);
    (line_start(d.text, line) + line_content_len_of(d.text, line)) as nat
}

/// ASCII lowercase of a code point.
pub open spec fn ascii_lower(x: u32) -> u32 {
    if 65 <= x <= 90 {
        (x + 32) as u32
    } else {
        x
    }
}

/// `char::eq_ignore_ascii_case`.
pub open spec fn eq_ascii_ci(a: char, b: char) -> bool {
    ascii_lower(a as u32) == ascii_lower(b as u32)
}

/// `needle` occurs at `i` in `hay`, ASCII-case-insensitively.
pub open spec fn matches_at(hay: Seq<char>, needle: Seq<char>, i: int) -> bool {
    &&& 0 <= i
    &&& i + needle.len() <= hay.len()
    &&& forall|k: int| 0 <= k < needle.len() ==> eq_ascii_ci(#[trigger] hay[i + k], needle[k])
}

/// Non-overlapping matches scanning from `i`: each match is taken and the
/// scan resumes after it.
pub open spec fn find_from(hay: Seq<char>, needle: Seq<char>, i: int) -> Seq<(nat, nat)>
    decreases hay.len() - i,
{
    if needle.len() == 0 || i < 0 || i + needle.len() > hay.len() {
        Seq::empty()
    } else if matches_at(hay, needle, i) {
        seq![(i as nat, (i + needle.len()) as nat)] + find_from(hay, needle, i + needle.len())
    } else {
        find_from(hay, needle, i + 1)
    }
}

#[derive(Debug)]
pub struct Document {
    buffer: Buffer,
    cursor: Cursor,
    history: History,
    path: Option<PathBuf>,
    dirty: bool,
}

impl View for Document {
    type V = DocV;

    closed spec fn view(&self) -> DocV {
        DocV { text: self.buffer@, cursor: self.cursor, history: self.history@, dirty: self.dirty }
    }
}

impl Document {
    /// The file the document is bound to.
    pub closed spec fn path_value(&self) -> Option<PathBuf> {
        self.path
    }

    pub open spec fn wf(&self) -> bool {
        doc_wf(self@)
    }

    pub fn new() -> (d: Self)
        ensures
            d.wf(),
            d@.text == Seq::<char>::empty(),
            d@.cursor == caret(0),
            d@.history == (HistoryV { undo: Seq::empty(), redo: Seq::empty(), open: None }),
            !d@.dirty,
            d.path_value() is None,
    {
        let d = Document {
            buffer: Buffer::new(),
            cursor: Cursor { pos: 0, anchor: None, sticky_col: None },
            history: History::new(),
            path: None,
            dirty: false,
        };
        assert(closed_groups(d@.history) =~= Seq::empty());
        d
    }

    pub fn from_str(text: &str) -> (d: Self)
        ensures
            d.wf(),
            d@.text == text@,
            d@.cursor == caret(0),
            d@.history == (HistoryV { undo: Seq::empty(), redo: Seq::empty(), open: None }),
            !d@.dirty,
            d.path_value() is None,
    {
        let d = Document {
            buffer: Buffer::from_str(text),
            cursor: Cursor { pos: 0, anchor: None, sticky_col: None },
            history: History::new(),
            path: None,
            dirty: false,
        };
        assert(closed_groups(d@.history) =~= Seq::empty());
        d
    }

    /// A clean document holding `text` that is bound to `path` (what was
    /// just read from that file).
    pub fn opened(text: &str, path: PathBuf) -> (d: Self)
        ensures
            d.wf(),
            d@.text == text@,
            d@.cursor == caret(0),
            !d@.dirty,
            d.path_value() == Some(path),
    {
        let mut d = Document::from_str(text);
        d.path = Some(path);
        d
    }

    // --- accessors ---
    pub fn text(&self) -> (t: String)
        ensures
            t@ == self@.text,
    {
        self.buffer.to_string()
    }

    pub fn buffer(&self) -> (b: &Buffer)
        ensures
            b@ == self@.text,
    {
        &self.buffer
    }

    pub fn path(&self) -> (p: Option<&Path>)
        ensures
            p is Some == self.path_value() is Some,
    {
        match &self.path {
            Some(p) => Some(as_path(p)),
            None => None,
        }
    }

    /// The bound path, owned.
    pub fn path_buf(&self) -> (p: Option<&PathBuf>)
        ensures
            match p {
                Some(p) => self.path_value() == Some(*p),
                None => self.path_value() is None,
            },
    {
        self.path.as_ref()
    }

    pub fn is_dirty(&self) -> (b: bool)
        ensures
            b == self@.dirty,
    {
        self.dirty
    }

    pub fn cursor(&self) -> (c: Cursor)
        ensures
            c == self@.cursor,
    {
        self.cursor
    }

    pub fn selection(&self) -> (r: Option<Range<usize>>)
        ensures
            range_view(r) == selection_of(self@.cursor),
    {
        self.cursor.selection()
    }

    pub fn selected_text(&self) -> (r: Option<String>)
        requires
            self.wf(),
        ensures
            match selection_of(self@.cursor) {
                Some((s, e)) => r is Some && r->0@ == self@.text.subrange(s as int, e as int),
                None => r is None,
            },
    {
        match self.cursor.selection() {
            Some(r) => Some(self.buffer.slice(r)),
            None => None,
        }
    }

    /// (line, grapheme column), both 0-based — for the status chrome.
    pub fn line_col(&self) -> (r: (usize, usize))
        requires
            self.wf(),
        ensures
            r.0 == breaks_before(self@.text, self@.cursor.pos as int),
            r.1 == grapheme_col_spec(self@.text, self@.cursor.pos as int),
    {
        let line = self.buffer.char_to_line(self.cursor.pos);
        (line, grapheme_col(&self.buffer, self.cursor.pos))
    }

    pub fn word_count(&self) -> (n: usize)
        ensures
            n == words_of(self@.text).len(),
    {
        let t = self.text();
        unicode_words(t.as_str()).len()
    }

    /// All non-overlapping match ranges (char indices) of `query`,
    /// ASCII-case-insensitively. Empty query matches nothing.
    pub fn find(&self, query: &str) -> (r: Vec<Range<usize>>)
        ensures
            r@.map_values(|x: Range<usize>| (x.start as nat, x.end as nat)) == find_from(
                self@.text,
                query@,
                0,
            ),
    {
        let needle = chars_of(query);
        let t = self.text();
        let hay = chars_of(t.as_str());
        let mut matches: Vec<Range<usize>> = Vec::new();
        if needle.len() == 0 {
            assert(matches@.map_values(|x: Range<usize>| (x.start as nat, x.end as nat)) =~= Seq::<(nat, nat)>::empty());
            return matches;
        }
        let n = needle.len();
        let mut i: usize = 0;
        while i <= hay.len() && n <= hay.len() - i
            invariant
                n == needle.len() > 0,
                matches@.map_values(|x: Range<usize>| (x.start as nat, x.end as nat)) + find_from(
                    hay@,
                    needle@,
                    i as int,
                ) == find_from(hay@, needle@, 0),
            decreases hay.len() + 1 - i,
        {
            let mut k: usize = 0;
            let mut hit = true;
            while k < n
                invariant
                    k <= n == needle.len(),
                    i + n <= hay.len(),
                    hit == forall|j: int| 0 <= j < k ==> eq_ascii_ci(#[trigger] hay@[i + j], needle@[j]),
                decreases n - k,
            {
                let a = hay[i + k] as u32;
                let b = needle[k] as u32;
                let la = if 65 <= a && a <= 90 { a + 32 } else { a };
                let lb = if 65 <= b && b <= 90 { b + 32 } else { b };
                if la != lb {
                    hit = false;
                }
                k = k + 1;
            }
            let ghost before = matches@.map_values(|x: Range<usize>| (x.start as nat, x.end as nat));
            if hit {
                matches.push(i..i + n);
                proof {
                    let after = matches@.map_values(|x: Range<usize>| (x.start as nat, x.end as nat));
                    assert(after =~= before.push((i as nat, (i + n) as nat)));
                    assert(before.push((i as nat, (i + n) as nat)) + find_from(hay@, needle@, i + n)
                        =~= before + (seq![(i as nat, (i + n) as nat)] + find_from(hay@, needle@, i + n)));
                }
                i = i + n;
            } else {
                i = i + 1;
            }
        }
        proof {
            let mv = matches@.map_values(|x: Range<usize>| (x.start as nat, x.end as nat));
            assert(find_from(hay@, needle@, i as int) =~= Seq::<(nat, nat)>::empty());
            assert(mv + Seq::<(nat, nat)>::empty() =~= mv);
        }
        matches
    }

    pub fn can_undo(&self) -> (b: bool)
        ensures
            b == (closed_groups(self@.history).len() > 0),
    {
        self.history.can_undo()
    }

    pub fn can_redo(&self) -> (b: bool)
        ensures
            b == (self@.history.redo.len() > 0),
    {
        self.history.can_redo()
    }

    // --- file binding ---
    /// Bind the document to `path` (the front-end writes the file).
    pub fn set_path(&mut self, path: PathBuf)
        ensures
            final(self)@ == old(self)@,
            final(self).path_value() == Some(path),
    {
        self.path = Some(path);
    }

    /// The front-end wrote the text to the bound file.
    pub fn mark_saved(&mut self)
        ensures
            final(self)@ == (DocV { dirty: false, ..old(self)@ }),
            final(self).path_value() == old(self).path_value(),
    {
        self.dirty = false;
    }
}

impl Document {
    // --- editing ---
    pub fn insert_char(&mut self, c: char)
        requires
            old(self).wf(),
        ensures
            final(self).wf(),
            final(self)@ == insert_str_spec(old(self)@, seq![c]),
            final(self).path_value() == old(self).path_value(),
    {
        let v = vec![c];
        assert(v@ =~= seq![c]);
        let s = string_of(v.as_slice());
        self.insert_str(s.as_str());
    }

    pub fn insert_str(&mut self, text: &str)
        requires
            old(self).wf(),
        ensures
            final(self).wf(),
            final(self)@ == insert_str_spec(old(self)@, text@),
            final(self).path_value() == old(self).path_value(),
    {
        let n = chars_of(text).len();
        if n == 0 {
            return;
        }
        if let Some(sel) = self.cursor.selection() {
            // Replacing a selection is one atomic undo group.
            self.commit_history();
            self.remove_range(sel.start, sel.end);
            self.insert_at_cursor(text, true);
        } else {
            self.insert_at_cursor(text, false);
        }
    }

    /// Apply an edit at an explicit char range, with the same undo grouping
    /// as typed input. For front-ends whose interaction layer owns the caret
    /// and syncs edits into the model.
    pub fn replace_range(&mut self, range: Range<usize>, text: &str)
        requires
            old(self).wf(),
        ensures
            final(self).wf(),
            final(self)@ == replace_range_spec(
                old(self)@,
                range.start as nat,
                range.end as nat,
                text@,
            ),
            final(self).path_value() == old(self).path_value(),
    {
        let len = self.buffer.len_chars();
        let start = if range.start < len { range.start } else { len };
        let end = if range.end < start {
            start
        } else if range.end < len {
            range.end
        } else {
            len
        };
        let n = chars_of(text).len();
        if start == end && n == 0 {
            return;
        }
        self.cursor.anchor = None;
        let removed = start < end;
        if removed {
            if self.remove_starts_new_group(start, end) {
                self.commit_history();
            }
            self.remove_range(start, end);
        } else {
            self.cursor.pos = start;
        }
        if n > 0 {
            // A remove+insert from one call is one atomic replacement.
            self.insert_at_cursor(text, removed);
        }
    }

    pub fn insert_newline(&mut self)
        requires
            old(self).wf(),
        ensures
            final(self).wf(),
            final(self)@ == insert_str_spec(old(self)@, seq!['\n']),
            final(self).path_value() == old(self).path_value(),
    {
        self.insert_char('\n');
    }

    pub fn backspace(&mut self)
        requires
            old(self).wf(),
        ensures
            final(self).wf(),
            final(self)@ == backspace_spec(old(self)@),
            final(self).path_value() == old(self).path_value(),
    {
        if let Some(sel) = self.cursor.selection() {
            self.commit_history();
            self.remove_range(sel.start, sel.end);
            return;
        }
        if self.cursor.pos == 0 {
            return;
        }
        let start = prev_grapheme_boundary(&self.buffer, self.cursor.pos);
        let end = self.cursor.pos;
        if self.remove_starts_new_group(start, end) {
            self.commit_history();
        }
        self.remove_range(start, end);
    }

    pub fn delete_forward(&mut self)
        requires
            old(self).wf(),
        ensures
            final(self).wf(),
            final(self)@ == delete_forward_spec(old(self)@),
            final(self).path_value() == old(self).path_value(),
    {
        if let Some(sel) = self.cursor.selection() {
            self.commit_history();
            self.remove_range(sel.start, sel.end);
            return;
        }
        if self.cursor.pos >= self.buffer.len_chars() {
            return;
        }
        let start = self.cursor.pos;
        let end = next_grapheme_boundary(&self.buffer, self.cursor.pos);
        if self.remove_starts_new_group(start, end) {
            self.commit_history();
        }
        self.remove_range(start, end);
    }

    /// Close the open undo group; the next edit starts a new one. Front-ends
    /// call this on typing pauses so undo works in human-sized chunks.
    pub fn commit_undo_group(&mut self)
        requires
            old(self).wf(),
        ensures
            final(self).wf(),
            final(self)@ == with_history(old(self)@, commit_spec(old(self)@.history)),
            final(self).path_value() == old(self).path_value(),
    {
        self.commit_history();
    }

    /// Undo one group; `false` when there was nothing to undo.
    pub fn undo(&mut self) -> (changed: bool)
        requires
            old(self).wf(),
        ensures
            final(self).wf(),
            changed == doc_undo_spec(old(self)@) is Some,
            changed ==> final(self)@ == doc_undo_spec(old(self)@)->0,
            !changed ==> final(self)@ == with_history(old(self)@, commit_spec(old(self)@.history)),
            final(self).path_value() == old(self).path_value(),
    {
        proof {
            lemma_consistent_undo_in_bounds(self.history@, self.buffer@);
            if undo_spec(self.history@, self.buffer@) is Some {
                lemma_undo_consistent(self.history@, self.buffer@);
            }
        }
        match self.history.undo(&mut self.buffer) {
            Some(pos) => {
                let len = self.buffer.len_chars();
                self.cursor = Cursor { pos: if pos < len { pos } else { len }, anchor: None, sticky_col: None };
                self.dirty = true;
                true
            },
            None => {
                proof {
                    lemma_commit_consistent(old(self)@.history, old(self)@.text);
                }
                false
            },
        }
    }

    /// Redo one group; `false` when there was nothing to redo.
    pub fn redo(&mut self) -> (changed: bool)
        requires
            old(self).wf(),
        ensures
            final(self).wf(),
            changed == doc_redo_spec(old(self)@) is Some,
            changed ==> final(self)@ == doc_redo_spec(old(self)@)->0,
            !changed ==> final(self)@ == with_history(old(self)@, commit_spec(old(self)@.history)),
            final(self).path_value() == old(self).path_value(),
    {
        proof {
            lemma_consistent_undo_in_bounds(self.history@, self.buffer@);
            if redo_spec(self.history@, self.buffer@) is Some {
                lemma_redo_consistent(self.history@, self.buffer@);
            }
        }
        match self.history.redo(&mut self.buffer) {
            Some(pos) => {
                let len = self.buffer.len_chars();
                self.cursor = Cursor { pos: if pos < len { pos } else { len }, anchor: None, sticky_col: None };
                self.dirty = true;
                true
            },
            None => {
                proof {
                    lemma_commit_consistent(old(self)@.history, old(self)@.text);
                }
                false
            },
        }
    }

    // --- movement (extend = keep/grow selection) ---
    pub fn move_left(&mut self, extend: bool)
        requires
            old(self).wf(),
        ensures
            final(self).wf(),
            final(self)@ == move_spec(old(self)@, move_left_target(old(self)@, extend), extend, None),
            final(self).path_value() == old(self).path_value(),
    {
        self.commit_history();
        let target = match self.cursor.selection() {
            Some(sel) if !extend => sel.start,
            _ => prev_grapheme_boundary(&self.buffer, self.cursor.pos),
        };
        self.set_cursor(target, extend);
        self.cursor.sticky_col = None;
    }

    pub fn move_right(&mut self, extend: bool)
        requires
            old(self).wf(),
        ensures
            final(self).wf(),
            final(self)@ == move_spec(old(self)@, move_right_target(old(self)@, extend), extend, None),
            final(self).path_value() == old(self).path_value(),
    {
        self.commit_history();
        let target = match self.cursor.selection() {
            Some(sel) if !extend => sel.end,
            _ => next_grapheme_boundary(&self.buffer, self.cursor.pos),
        };
        self.set_cursor(target, extend);
        self.cursor.sticky_col = None;
    }

    pub fn move_up(&mut self, extend: bool)
        requires
            old(self).wf(),
        ensures
            final(self).wf(),
            final(self)@ == move_spec(
                old(self)@,
                move_up_target(old(self)@),
                extend,
                Some(goal_col(old(self)@) as usize),
            ),
            final(self).path_value() == old(self).path_value(),
    {
        self.commit_history();
        let line = self.buffer.char_to_line(self.cursor.pos);
        let col = match self.cursor.sticky_col {
            Some(c) => c,
            None => grapheme_col(&self.buffer, self.cursor.pos),
        };
        let target = if line == 0 {
            0
        } else {
            pos_at_grapheme_col(&self.buffer, line - 1, col)
        };
        self.set_cursor(target, extend);
        self.cursor.sticky_col = Some(col);
    }

    pub fn move_down(&mut self, extend: bool)
        requires
            old(self).wf(),
        ensures
            final(self).wf(),
            final(self)@ == move_spec(
                old(self)@,
                move_down_target(old(self)@),
                extend,
                Some(goal_col(old(self)@) as usize),
            ),
            final(self).path_value() == old(self).path_value(),
    {
        self.commit_history();
        let line = self.buffer.char_to_line(self.cursor.pos);
        let col = match self.cursor.sticky_col {
            Some(c) => c,
            None => grapheme_col(&self.buffer, self.cursor.pos),
        };
        let nl = self.buffer.len_lines();
        let target = if line >= nl - 1 {
            self.buffer.len_chars()
        } else {
            pos_at_grapheme_col(&self.buffer, line + 1, col)
        };
        self.set_cursor(target, extend);
        self.cursor.sticky_col = Some(col);
    }

    pub fn move_word_left(&mut self, extend: bool)
        requires
            old(self).wf(),
        ensures
            final(self).wf(),
            final(self)@ == move_spec(
                old(self)@,
                prev_word_spec(old(self)@.text, old(self)@.cursor.pos as int) as nat,
                extend,
                None,
            ),
            final(self).path_value() == old(self).path_value(),
    {
        self.commit_history();
        let target = prev_word_boundary(&self.buffer, self.cursor.pos);
        self.set_cursor(target, extend);
        self.cursor.sticky_col = None;
    }

    pub fn move_word_right(&mut self, extend: bool)
        requires
            old(self).wf(),
        ensures
            final(self).wf(),
            final(self)@ == move_spec(
                old(self)@,
                next_word_spec(old(self)@.text, old(self)@.cursor.pos as int) as nat,
                extend,
                None,
            ),
            final(self).path_value() == old(self).path_value(),
    {
        self.commit_history();
        let target = next_word_boundary(&self.buffer, self.cursor.pos);
        self.set_cursor(target, extend);
        self.cursor.sticky_col = None;
    }

    pub fn move_line_start(&mut self, extend: bool)
        requires
            old(self).wf(),
        ensures
            final(self).wf(),
            final(self)@ == move_spec(
                old(self)@,
                line_start(old(self)@.text, breaks_before(old(self)@.text, old(self)@.cursor.pos as int)) as nat,
                extend,
                None,
            ),
            final(self).path_value() == old(self).path_value(),
    {
        self.commit_history();
        let line = self.buffer.char_to_line(self.cursor.pos);
        let target = self.buffer.line_to_char(line);
        self.set_cursor(target, extend);
        self.cursor.sticky_col = None;
    }

    pub fn move_line_end(&mut self, extend: bool)
        requires
            old(self).wf(),
        ensures
            final(self).wf(),
            final(self)@ == move_spec(old(self)@, line_end_target(old(self)@), extend, None),
            final(self).path_value() == old(self).path_value(),
    {
        self.commit_history();
        let _len = self.buffer.len_chars();
        let line = self.buffer.char_to_line(self.cursor.pos);
        let start = self.buffer.line_to_char(line);
        let n = self.buffer.line_content_len(line);
        proof {
            lemma_line_content_within(self.buffer@, line as nat);
        }
        self.set_cursor(start + n, extend);
        self.cursor.sticky_col = None;
    }

    pub fn select_all(&mut self)
        requires
            old(self).wf(),
        ensures
            final(self).wf(),
            final(self)@ == select_all_spec(old(self)@),
            final(self).path_value() == old(self).path_value(),
    {
        self.commit_history();
        self.cursor.anchor = Some(0);
        self.cursor.pos = self.buffer.len_chars();
        self.cursor.sticky_col = None;
    }

    pub fn set_cursor_pos(&mut self, pos: usize, extend: bool)
        requires
            old(self).wf(),
        ensures
            final(self).wf(),
            final(self)@ == move_spec(
                old(self)@,
                clamp(pos as int, old(self)@.text.len() as int) as nat,
                extend,
                None,
            ),
            final(self).path_value() == old(self).path_value(),
    {
        self.commit_history();
        let len = self.buffer.len_chars();
        self.set_cursor(if pos < len { pos } else { len }, extend);
        self.cursor.sticky_col = None;
    }

    // --- internals ---
    fn commit_history(&mut self)
        requires
            old(self).wf(),
        ensures
            final(self).wf(),
            final(self)@ == with_history(old(self)@, commit_spec(old(self)@.history)),
            final(self).path_value() == old(self).path_value(),
    {
        proof {
            lemma_commit_consistent(self.history@, self.buffer@);
        }
        self.history.commit();
    }

    fn set_cursor(&mut self, pos: usize, extend: bool)
        requires
            old(self).wf(),
            pos <= old(self)@.text.len(),
        ensures
            final(self).wf(),
            final(self)@ == (DocV { cursor: set_cursor_spec(old(self)@.cursor, pos as nat, extend), ..old(self)@ }),
            final(self).path_value() == old(self).path_value(),
    {
        if extend {
            if self.cursor.anchor.is_none() {
                self.cursor.anchor = Some(self.cursor.pos);
            }
        } else {
            self.cursor.anchor = None;
        }
        self.cursor.pos = pos;
    }

    fn insert_at_cursor(&mut self, text: &str, join_open_group: bool)
        requires
            old(self).wf(),
        ensures
            final(self).wf(),
            final(self)@ == insert_at_cursor_spec(old(self)@, text@, join_open_group),
            final(self).path_value() == old(self).path_value(),
    {
        if !join_open_group && self.insert_starts_new_group(text) {
            self.commit_history();
        }
        let ghost d1 = self@;
        let at = self.cursor.pos;
        let n = chars_of(text).len();
        let len = self.buffer.len_chars();
        self.buffer.insert(at, text);
        let _len2 = self.buffer.len_chars();
        let new_pos = at + n;
        proof {
            lemma_record_consistent(d1.history, d1.text, OpV::Ins(at as nat, text@), at as nat, new_pos as nat);
        }
        let owned = string_of(chars_of(text).as_slice());
        self.history.record(EditOp::Insert { at, text: owned }, at, new_pos);
        self.cursor = Cursor { pos: new_pos, anchor: None, sticky_col: None };
        self.dirty = true;
    }

    fn remove_range(&mut self, start: usize, end: usize)
        requires
            old(self).wf(),
            start <= end <= old(self)@.text.len(),
        ensures
            final(self).wf(),
            final(self)@ == remove_range_spec(old(self)@, start as nat, end as nat),
            final(self).path_value() == old(self).path_value(),
    {
        let ghost d1 = self@;
        let cursor_before = self.cursor.pos;
        let removed = self.buffer.remove(start..end);
        proof {
            lemma_record_consistent(
                d1.history,
                d1.text,
                OpV::Rem(start as nat, d1.text.subrange(start as int, end as int)),
                cursor_before as nat,
                start as nat,
            );
            assert(apply(d1.text, OpV::Rem(start as nat, d1.text.subrange(start as int, end as int)))
                =~= d1.text.take(start as int) + d1.text.skip(end as int));
        }
        self.history.record(EditOp::Remove { at: start, text: removed }, cursor_before, start);
        self.cursor = Cursor { pos: start, anchor: None, sticky_col: None };
        self.dirty = true;
    }

    fn insert_starts_new_group(&self, text: &str) -> (b: bool)
        ensures
            b == insert_starts_group(self@.history, self@.cursor.pos as nat, text@),
    {
        match self.history.open_last_op() {
            None => false,
            Some(EditOp::Insert { at, text: prev }) => {
                let p = chars_of(prev.as_str());
                let t = chars_of(text);
                let contiguous = (*at as u128) + (p.len() as u128) == (self.cursor.pos as u128);
                let word_break = t.len() > 0 && !char_is_whitespace(t[0]) && p.len() > 0
                    && char_is_whitespace(p[p.len() - 1]);
                let newline = contains_char(&t, '\n');
                !contiguous || word_break || newline
            },
            Some(EditOp::Remove { .. }) => true,
        }
    }

    fn remove_starts_new_group(&self, start: usize, end: usize) -> (b: bool)
        ensures
            b == remove_starts_group(self@.history, start as nat, end as nat),
    {
        match self.history.open_last_op() {
            None => false,
            Some(EditOp::Remove { at, .. }) => *at != end && *at != start,
            Some(EditOp::Insert { .. }) => true,
        }
    }
}

/// `c` occurs in `v`.
fn contains_char(v: &Vec<char>, c: char) -> (b: bool)
    ensures
        b == v@.contains(c),
{
    let mut i: usize = 0;
    while i < v.len()
        invariant
            i <= v.len(),
            forall|k: int| 0 <= k < i ==> v@[k] != c,
        decreases v.len() - i,
    {
        if v[i] == c {
            return true;
        }
        i = i + 1;
    }
    false
}

proof fn lemma_line_content_within(s: Seq<char>, l: nat)
    requires
        l < line_count(s),
    ensures
        line_start(s, l) + line_content_len_of(s, l) <= s.len(),
{
    lemma_line_start(s, l);
    lemma_line_start(s, l + 1);
}

/// A line break always starts an undo group of its own: after typing text
/// that holds a `\n` (with nothing selected), one undo takes back exactly
/// that text, whatever was typed just before it.
pub proof fn lemma_line_break_is_its_own_undo(d: DocV, t: Seq<char>)
    requires
        doc_wf(d),
        selection_of(d.cursor) is None,
        t.contains('\n'),
    ensures
        doc_undo_spec(insert_str_spec(d, t)) is Some,
        (doc_undo_spec(insert_str_spec(d, t))->0).text == d.text,
{
    let at = d.cursor.pos as nat;
    let h = d.history;
    let k = choose|k: int| 0 <= k < t.len() && t[k] == '\n';
    assert(t.len() > 0);
    let r = insert_str_spec(d, t);
    assert(r == insert_at_cursor_spec(d, t, false));
    let h1 = if insert_starts_group(h, at, t) { commit_spec(h) } else { h };
    assert(h1.open is None || h1.open->0.ops.len() == 0) by {
        match open_last(h) {
            None => {},
            Some(OpV::Ins(_, _)) => {},
            Some(OpV::Rem(_, _)) => {},
        }
    }
    let g = r.history.open->0;
    assert(g.ops =~= seq![OpV::Ins(at, t)]);
    assert(closed_groups(r.history).last() == g);
    let t1 = apply(r.text, invert(OpV::Ins(at, t)));
    assert(t1 =~= d.text);
    assert(g.ops.drop_last() =~= Seq::<OpV>::empty());
    assert(unapply_all(t1, Seq::<OpV>::empty()) == t1);
    assert(unapply_all(r.text, g.ops) == t1);
}

/// Undoing a group and redoing it gives back the same text, and the redo is
/// available right after the undo.
pub proof fn lemma_undo_then_redo_restores(d: DocV)
    requires
        doc_wf(d),
        doc_undo_spec(d) is Some,
    ensures
        doc_redo_spec(doc_undo_spec(d)->0) is Some,
        (doc_redo_spec(doc_undo_spec(d)->0)->0).text == d.text,
        (doc_redo_spec(doc_undo_spec(d)->0)->0).history == commit_spec(d.history),
{
    lemma_undo_then_redo(d.history, d.text);
}

/// Redoing a group and undoing it gives back the same text.
pub proof fn lemma_redo_then_undo_restores(d: DocV)
    requires
        doc_wf(d),
        doc_redo_spec(d) is Some,
    ensures
        doc_undo_spec(doc_redo_spec(d)->0) is Some,
        (doc_undo_spec(doc_redo_spec(d)->0)->0).text == d.text,
{
    lemma_redo_then_undo(d.history, d.text);
}

/// Typing `t` replaces the selection (or inserts at the caret) with `t` and
/// leaves the caret right after it.
pub proof fn lemma_insert_str_effect(d: DocV, t: Seq<char>)
    requires
        doc_wf(d),
        t.len() > 0,
    ensures
        ({
            let (s, e) = match selection_of(d.cursor) {
                Some((s, e)) => (s, e),
                None => (d.cursor.pos as nat, d.cursor.pos as nat),
            };
            let r = insert_str_spec(d, t);
            &&& r.text == d.text.take(s as int) + t + d.text.skip(e as int)
            &&& r.cursor == caret(s + t.len())
            &&& r.dirty
        }),
{
    match selection_of(d.cursor) {
        Some((s, e)) => {
            let d1 = remove_range_spec(with_history(d, commit_spec(d.history)), s, e);
            assert(d1.text.take(s as int) =~= d.text.take(s as int));
            assert(d1.text.skip(s as int) =~= d.text.skip(e as int));
        },
        None => {},
    }
}

/// Backspace with no selection removes exactly the grapheme cluster before
/// the caret, and the caret lands where it began.
pub proof fn lemma_backspace_effect(d: DocV)
    requires
        doc_wf(d),
        selection_of(d.cursor) is None,
        d.cursor.pos > 0,
    ensures
        ({
            let p = prev_grapheme_spec(d.text, d.cursor.pos as int);
            let r = backspace_spec(d);
            &&& r.text == d.text.take(p) + d.text.skip(d.cursor.pos as int)
            &&& r.cursor == caret(p as nat)
        }),
{
    let pos = d.cursor.pos as int;
    let l = breaks_before(d.text, pos);
    lemma_line_start(d.text, l);
    crate::cursor::lemma_prev_start_nonneg(
        crate::segment::graphemes_of(crate::buffer::line_text(d.text, l)),
        pos - line_start(d.text, l),
    );
}

/// Every range `find` reports is a match of the query, in order and without
/// overlap.
pub proof fn lemma_find_sound(hay: Seq<char>, needle: Seq<char>, i: int)
    requires
        0 <= i,
    ensures
        forall|k: int|
            0 <= k < find_from(hay, needle, i).len() ==> {
                let (a, b) = #[trigger] find_from(hay, needle, i)[k];
                &&& i <= a
                &&& matches_at(hay, needle, a as int)
                &&& b == a + needle.len()
            },
        forall|k: int|
            0 < k < find_from(hay, needle, i).len() ==> find_from(hay, needle, i)[k - 1].1
                <= #[trigger] find_from(hay, needle, i)[k].0,
    decreases hay.len() - i,
{
    if needle.len() == 0 || i + needle.len() > hay.len() {
        assert(find_from(hay, needle, i).len() == 0);
    } else if matches_at(hay, needle, i) {
        lemma_find_sound(hay, needle, i + needle.len());
        let rest = find_from(hay, needle, i + needle.len());
        let all = find_from(hay, needle, i);
        assert(all =~= seq![(i as nat, (i + needle.len()) as nat)] + rest);
        assert forall|k: int| 0 < k < all.len() implies all[k - 1].1 <= #[trigger] all[k].0 by {
            if k >= 2 {
                assert(all[k - 1] == rest[k - 2]);
                assert(all[k] == rest[k - 1]);
            } else {
                assert(all[k] == rest[0]);
            }
        }
        assert forall|k: int| 0 <= k < all.len() implies ({
            let (a, b) = #[trigger] all[k];
            &&& i <= a
            &&& matches_at(hay, needle, a as int)
            &&& b == a + needle.len()
        }) by {
            if k >= 1 {
                assert(all[k] == rest[k - 1]);
            }
        }
    } else {
        lemma_find_sound(hay, needle, i + 1);
        assert(find_from(hay, needle, i) == find_from(hay, needle, i + 1));
    }
}

/// Debounced-autosave decision logic. The library owns no clock; callers
/// pass monotonic milliseconds.
#[derive(Debug, Clone, Copy, Default)]
pub struct AutosaveTimer {
    last_edit_ms: Option<u64>,
}

/// Autosave fires this long after the last keystroke.
pub const DEBOUNCE_MS: u64 = 1000;

impl AutosaveTimer {
    /// The time of the last unsaved edit, if any.
    pub closed spec fn last_edit(&self) -> Option<u64> {
        self.last_edit_ms
    }

    pub fn new() -> (t: Self)
        ensures
            t.last_edit() is None,
    {
        AutosaveTimer { last_edit_ms: None }
    }

    pub fn note_edit(&mut self, now_ms: u64)
        ensures
            final(self).last_edit() == Some(now_ms),
    {
        self.last_edit_ms = Some(now_ms);
    }

    /// True once the debounce window has elapsed since the last edit.
    pub fn should_save(&self, now_ms: u64) -> (b: bool)
        ensures
            b == match self.last_edit() {
                Some(t) => now_ms >= t && now_ms - t >= DEBOUNCE_MS,
                None => false,
            },
    {
        match self.last_edit_ms {
            Some(t) => now_ms.saturating_sub(t) >= DEBOUNCE_MS,
            None => false,
        }
    }

    pub fn saved(&mut self)
        ensures
            final(self).last_edit() is None,
    {
        self.last_edit_ms = None;
    }
}

} // verus!
