//! Rope-backed text buffer. All positions are char indices; grapheme
//! awareness lives in the cursor module.
//!
//! Lines follow the rope's rules: a line ends after a line break (LF, CRLF
//! taken as one break, CR, VT, FF, NEL, LS, PS) and the break belongs to the
//! line it ends; a text with `n` breaks has `n + 1` lines.

use vstd::prelude::*;
use ropey::Rope;
use std::ops::Range;
use crate::text::chars_of;

verus! {

#[verifier::external_type_specification]
#[verifier::external_body]
pub struct ExRope(Rope);

/// The chars a rope holds.
pub uninterp spec fn rope_chars(r: Rope) -> Seq<char>;

/// A char that can end a line.
pub open spec fn is_break_char(c: char) -> bool {
    c == '\n' || c == '\r' || c == '\u{b}' || c == '\u{c}' || c == '\u{85}' || c == '\u{2028}'
        || c == '\u{2029}'
}

/// A line ends right after index `k` (a CR directly followed by LF is not a
/// break by itself: the pair breaks at its LF).
pub open spec fn ends_line(s: Seq<char>, k: int) -> bool {
    &&& 0 <= k < s.len()
    &&& is_break_char(s[k])
    &&& !(s[k] == '\r' && k + 1 < s.len() && s[k + 1] == '\n')
}

/// Number of line breaks among the first `i` chars: the line index of `i`.
pub open spec fn breaks_before(s: Seq<char>, i: int) -> nat
    decreases i,
{
    if i <= 0 {
        0
    } else {
        breaks_before(s, i - 1) + if ends_line(s, i - 1) {
            1nat
        } else {
            0nat
        }
    }
}

/// Number of lines of `s`.
pub open spec fn line_count(s: Seq<char>) -> nat {
    breaks_before(s, s.len() as int) + 1
}

/// The first index at or after `i` that has at least `l` breaks before it
/// (or the end of `s`).
pub open spec fn line_start_from(s: Seq<char>, l: nat, i: int) -> int
    decreases s.len() - i,
{
    if i >= s.len() || breaks_before(s, i) >= l {
        i
    } else {
        line_start_from(s, l, i + 1)
    }
}

/// Char index where line `l` starts; `line_count(s)` maps to the end.
pub open spec fn line_start(s: Seq<char>, l: nat) -> int {
    line_start_from(s, l, 0)
}

/// The text of line `l`, its trailing break included.
pub open spec fn line_text(s: Seq<char>, l: nat) -> Seq<char> {
    s.subrange(line_start(s, l), line_start(s, l + 1))
}

/// Length of line `l` without a trailing LF.
pub open spec fn line_content_len_of(s: Seq<char>, l: nat) -> nat {
    let t = line_text(s, l);
    if t.len() > 0 && t[t.len() - 1] == '\n' {
        (t.len() - 1) as nat
    } else {
        t.len()
    }
}

/// The line index grows with the position, by at most one per char.
pub proof fn lemma_breaks_before_bounds(s: Seq<char>, i: int, j: int)
    requires
        0 <= i <= j,
    ensures
        breaks_before(s, i) <= breaks_before(s, j),
        breaks_before(s, j) <= breaks_before(s, i) + (j - i),
        breaks_before(s, i) <= i,
    decreases j,
{
    if i < j {
        lemma_breaks_before_bounds(s, i, j - 1);
    } else if i > 0 {
        lemma_breaks_before_bounds(s, i - 1, i - 1);
    }
}

proof fn lemma_line_start_from(s: Seq<char>, l: nat, i: int)
    requires
        0 <= i <= s.len(),
    ensures
        i <= line_start_from(s, l, i) <= s.len(),
        line_start_from(s, l, i) < s.len() ==> breaks_before(s, line_start_from(s, l, i)) >= l,
        forall|k: int| i <= k < line_start_from(s, l, i) ==> breaks_before(s, k) < l,
    decreases s.len() - i,
{
    if i < s.len() && breaks_before(s, i) < l {
        lemma_line_start_from(s, l, i + 1);
    }
}

/// Where line starts sit: within the text, in order, and each line holds
/// exactly the indices whose line index is `l`.
pub proof fn lemma_line_start(s: Seq<char>, l: nat)
    ensures
        0 <= line_start(s, l) <= s.len(),
        line_start(s, l) <= line_start(s, l + 1),
        l < line_count(s) ==> breaks_before(s, line_start(s, l)) == l,
        l >= line_count(s) ==> line_start(s, l) == s.len(),
        forall|k: int| 0 <= k < line_start(s, l) ==> breaks_before(s, k) < l,
{
    lemma_line_start_from(s, l, 0);
    lemma_line_start_from(s, l + 1, 0);
    let a = line_start(s, l);
    let b = line_start(s, l + 1);
    if b < a {
        assert(breaks_before(s, b) < l);
        if b < s.len() {
            assert(breaks_before(s, b) >= l + 1);
        }
    }
    if a > 0 && l < line_count(s) {
        assert(breaks_before(s, a - 1) < l);
        if a < s.len() {
            assert(breaks_before(s, a) >= l);
        } else {
            assert(breaks_before(s, s.len() as int) >= l);
        }
    }
    if l == 0 {
        assert(breaks_before(s, 0) == 0);
    }
    if l >= line_count(s) && a < s.len() {
        lemma_breaks_before_bounds(s, a, s.len() as int);
    }
}

/// The line holding index `i` starts at or before `i`, and the next line
/// starts after it.
pub proof fn lemma_line_of(s: Seq<char>, i: int)
    requires
        0 <= i <= s.len(),
    ensures
        breaks_before(s, i) < line_count(s),
        line_start(s, breaks_before(s, i)) <= i,
        i < s.len() ==> i < line_start(s, breaks_before(s, i) + 1),
{
    let l = breaks_before(s, i);
    lemma_breaks_before_bounds(s, i, s.len() as int);
    lemma_line_start(s, l);
    lemma_line_start(s, l + 1);
    if i < s.len() && line_start(s, l + 1) <= i {
        if line_start(s, l + 1) < s.len() {
            lemma_breaks_before_bounds(s, line_start(s, l + 1), i);
        }
    }
}

/// `Rope::new`: an empty rope.
#[verifier::external_body]
fn rope_new() -> (r: Rope)
    ensures
        rope_chars(r) == Seq::<char>::empty(),
{
    Rope::new()
}

/// `Rope::from_str`: a rope holding the chars of `text`.
#[verifier::external_body]
fn rope_from_str(text: &str) -> (r: Rope)
    ensures
        rope_chars(r) == text@,
{
    Rope::from_str(text)
}

/// `Rope::len_chars`: the number of chars.
#[verifier::external_body]
fn rope_len_chars(r: &Rope) -> (n: usize)
    ensures
        n == rope_chars(*r).len(),
{
    r.len_chars()
}

/// `Rope::len_lines`: the number of line breaks plus one.
#[verifier::external_body]
fn rope_len_lines(r: &Rope) -> (n: usize)
    ensures
        n == line_count(rope_chars(*r)),
{
    r.len_lines()
}

/// `Rope::char_to_line`: the count of line breaks before `char_idx`
/// (panics past the end, so that is excluded).
#[verifier::external_body]
fn rope_char_to_line(r: &Rope, char_idx: usize) -> (l: usize)
    requires
        char_idx <= rope_chars(*r).len(),
    ensures
        l == breaks_before(rope_chars(*r), char_idx as int),
{
    r.char_to_line(char_idx)
}

/// `Rope::line_to_char`: where line `line_idx` starts; one past the last
/// line gives the end of the text (panics beyond that).
#[verifier::external_body]
fn rope_line_to_char(r: &Rope, line_idx: usize) -> (c: usize)
    requires
        line_idx <= line_count(rope_chars(*r)),
    ensures
        c == line_start(rope_chars(*r), line_idx as nat),
{
    r.line_to_char(line_idx)
}

/// `Rope::line`, taken as a `String`: the text of the line, its break
/// included (panics for a line index that does not exist).
#[verifier::external_body]
fn rope_line(r: &Rope, line_idx: usize) -> (t: String)
    requires
        line_idx < line_count(rope_chars(*r)),
    ensures
        t@ == line_text(rope_chars(*r), line_idx as nat),
{
    r.line(line_idx).to_string()
}

/// `Rope::slice`, taken as a `String`: the chars in `[start, end)`.
#[verifier::external_body]
fn rope_slice(r: &Rope, start: usize, end: usize) -> (t: String)
    requires
        start <= end <= rope_chars(*r).len(),
    ensures
        t@ == rope_chars(*r).subrange(start as int, end as int),
{
    r.slice(start..end).to_string()
}

/// `Rope::insert`: `text` goes in at `char_idx`.
#[verifier::external_body]
fn rope_insert(r: &mut Rope, char_idx: usize, text: &str)
    requires
        char_idx <= rope_chars(*old(r)).len(),
    ensures
        rope_chars(*final(r)) == rope_chars(*old(r)).take(char_idx as int) + text@ + rope_chars(
            *old(r),
        ).skip(char_idx as int),
{
    r.insert(char_idx, text)
}

/// `Rope::remove`: the chars in `[start, end)` go.
#[verifier::external_body]
fn rope_remove(r: &mut Rope, start: usize, end: usize)
    requires
        start <= end <= rope_chars(*old(r)).len(),
    ensures
        rope_chars(*final(r)) == rope_chars(*old(r)).take(start as int) + rope_chars(
            *old(r),
        ).skip(end as int),
{
    r.remove(start..end)
}

/// The rope's text as a `String` (its `Display`).
#[verifier::external_body]
fn rope_to_string(r: &Rope) -> (t: String)
    ensures
        t@ == rope_chars(*r),
{
    r.to_string()
}

#[derive(Debug)]
pub struct Buffer {
    rope: Rope,
}

impl View for Buffer {
    type V = Seq<char>;

    closed spec fn view(&self) -> Seq<char> {
        rope_chars(self.rope)
    }
}

impl Buffer {
    pub fn new() -> (b: Self)
        ensures
            b@ == Seq::<char>::empty(),
    {
        Buffer { rope: rope_new() }
    }

    pub fn from_str(text: &str) -> (b: Self)
        ensures
            b@ == text@,
    {
        Buffer { rope: rope_from_str(text) }
    }

    pub fn len_chars(&self) -> (n: usize)
        ensures
            n == self@.len(),
    {
        rope_len_chars(&self.rope)
    }

    pub fn len_lines(&self) -> (n: usize)
        ensures
            n == line_count(self@),
    {
        rope_len_lines(&self.rope)
    }

    pub fn is_empty(&self) -> (b: bool)
        ensures
            b == (self@.len() == 0),
    {
        rope_len_chars(&self.rope) == 0
    }

    pub fn char_to_line(&self, char_idx: usize) -> (l: usize)
        requires
            char_idx <= self@.len(),
        ensures
            l == breaks_before(self@, char_idx as int),
            l < line_count(self@),
    {
        proof {
            lemma_line_of(self@, char_idx as int);
        }
        rope_char_to_line(&self.rope, char_idx)
    }

    pub fn line_to_char(&self, line_idx: usize) -> (c: usize)
        requires
            line_idx <= line_count(self@),
        ensures
            c == line_start(self@, line_idx as nat),
            c <= self@.len(),
    {
        proof {
            lemma_line_start(self@, line_idx as nat);
        }
        rope_line_to_char(&self.rope, line_idx)
    }

    /// Line text, including any trailing newline.
    pub fn line(&self, line_idx: usize) -> (t: String)
        requires
            line_idx < line_count(self@),
        ensures
            t@ == line_text(self@, line_idx as nat),
    {
        rope_line(&self.rope, line_idx)
    }

    /// Chars in the line, excluding any trailing newline.
    pub fn line_content_len(&self, line_idx: usize) -> (n: usize)
        requires
            line_idx < line_count(self@),
        ensures
            n == line_content_len_of(self@, line_idx as nat),
    {
        let line = rope_line(&self.rope, line_idx);
        let chars = chars_of(line.as_str());
        let len = chars.len();
        if len > 0 && chars[len - 1] == '\n' {
            len - 1
        } else {
            len
        }
    }

    pub fn slice(&self, range: Range<usize>) -> (t: String)
        requires
            range.start <= range.end <= self@.len(),
        ensures
            t@ == self@.subrange(range.start as int, range.end as int),
    {
        rope_slice(&self.rope, range.start, range.end)
    }

    pub fn insert(&mut self, char_idx: usize, text: &str)
        requires
            char_idx <= old(self)@.len(),
        ensures
            final(self)@ == old(self)@.take(char_idx as int) + text@ + old(self)@.skip(
                char_idx as int,
            ),
    {
        rope_insert(&mut self.rope, char_idx, text)
    }

    /// Remove a char range, returning the removed text (for undo).
    pub fn remove(&mut self, range: Range<usize>) -> (removed: String)
        requires
            range.start <= range.end <= old(self)@.len(),
        ensures
            removed@ == old(self)@.subrange(range.start as int, range.end as int),
            final(self)@ == old(self)@.take(range.start as int) + old(self)@.skip(range.end as int),
    {
        let removed = rope_slice(&self.rope, range.start, range.end);
        rope_remove(&mut self.rope, range.start, range.end);
        removed
    }

    /// The whole text.
    pub fn to_string(&self) -> (t: String)
        ensures
            t@ == self@,
    {
        rope_to_string(&self.rope)
    }
}

} // verus!
