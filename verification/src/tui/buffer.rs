//! The terminal editor's line buffer. Its cursor column is a byte offset
//! into the line's UTF-8 text: an edit lands where that offset starts a
//! character, and moving left or right steps one byte. Reading and writing
//! the file is the front-end's part.

use vstd::prelude::*;
use std::path::PathBuf;
use vstd::utf8::encode_utf8;
use vstd::string::StringSliceAdditionalSpecFns;
use crate::editor::buffer::{lines_view, join_lines, min, initial_lines, no_name};
use crate::lines::{split_lines, views_of};
use crate::paths::{file_name_of, file_name};
use crate::text::{chars_of, string_of, append_chars, slice_chars};

verus! {

/// The UTF-8 length of `s`.
pub open spec fn blen(s: Seq<char>) -> nat {
    encode_utf8(s).len()
}

/// Byte offset `x` starts a character of `s` (or is its end).
pub open spec fn is_boundary(s: Seq<char>, x: int) -> bool {
    exists|k: int| 0 <= k <= s.len() && blen(#[trigger] s.take(k)) == x
}

/// The index of the character that starts at byte `x` (its count of
/// characters before it).
pub open spec fn char_at_byte(s: Seq<char>, x: int) -> int {
    choose|k: int| 0 <= k <= s.len() && blen(#[trigger] s.take(k)) == x
}

/// The UTF-8 width of `c`.
pub open spec fn width(c: char) -> nat {
    if (c as u32) < 0x80 {
        1
    } else if (c as u32) < 0x800 {
        2
    } else if (c as u32) < 0x10000 {
        3
    } else {
        4
    }
}

/// UTF-8 encoding distributes over concatenation.
pub proof fn lemma_encode_concat(a: Seq<char>, b: Seq<char>)
    ensures
        encode_utf8(a + b) == encode_utf8(a) + encode_utf8(b),
    decreases a.len(),
{
    if a.len() == 0 {
        assert(a + b =~= b);
        assert(encode_utf8(a) =~= Seq::<u8>::empty());
        assert(Seq::<u8>::empty() + encode_utf8(b) =~= encode_utf8(b));
    } else {
        assert((a + b).drop_first() =~= a.drop_first() + b);
        assert((a + b)[0] == a[0]);
        lemma_encode_concat(a.drop_first(), b);
        assert(encode_utf8(a + b) =~= encode_utf8(a) + encode_utf8(b));
    }
}

/// A char encodes to its UTF-8 width, at least one byte.
pub proof fn lemma_width(c: char)
    ensures
        blen(seq![c]) == width(c),
        width(c) >= 1,
{
    vstd::utf8::char_is_scalar(c);
    assert(seq![c].drop_first() =~= Seq::<char>::empty());
    assert(encode_utf8(Seq::<char>::empty()) =~= Seq::<u8>::empty());
    assert(encode_utf8(seq![c]) =~= vstd::utf8::encode_scalar(c as u32));
}

proof fn lemma_take_step(s: Seq<char>, k: int)
    requires
        0 <= k < s.len(),
    ensures
        blen(s.take(k + 1)) == blen(s.take(k)) + width(s[k]),
{
    assert(s.take(k + 1) =~= s.take(k) + seq![s[k]]);
    lemma_encode_concat(s.take(k), seq![s[k]]);
    lemma_width(s[k]);
}

proof fn lemma_take_mono(s: Seq<char>, i: int, j: int)
    requires
        0 <= i < j <= s.len(),
    ensures
        blen(s.take(i)) < blen(s.take(j)),
    decreases j - i,
{
    lemma_take_step(s, j - 1);
    lemma_width(s[j - 1]);
    if i < j - 1 {
        lemma_take_mono(s, i, j - 1);
    }
}

/// The byte offset of the first `k` chars is a char boundary, and maps back
/// to `k` chars.
pub proof fn lemma_char_at_byte(s: Seq<char>, k: int)
    requires
        0 <= k <= s.len(),
    ensures
        is_boundary(s, blen(s.take(k)) as int),
        char_at_byte(s, blen(s.take(k)) as int) == k,
{
    let x = blen(s.take(k)) as int;
    assert(0 <= k <= s.len() && blen(s.take(k)) == x);
    let c = char_at_byte(s, x);
    if c < k {
        lemma_take_mono(s, c, k);
    } else if c > k {
        lemma_take_mono(s, k, c);
    }
}

proof fn lemma_full_take(s: Seq<char>)
    ensures
        s.take(s.len() as int) == s,
{
    assert(s.take(s.len() as int) =~= s);
}

/// The byte length of `s`.
pub fn byte_len_of(s: &String) -> (n: usize)
    ensures
        n == blen(s@),
{
    s.as_str().as_bytes().len()
}

/// The character that starts at byte `x` of `v` (of byte length `total`),
/// if one does.
pub fn boundary_index(v: &Vec<char>, total: usize, x: usize) -> (r: Option<usize>)
    requires
        total == blen(v@),
    ensures
        match r {
            Some(k) => is_boundary(v@, x as int) && k == char_at_byte(v@, x as int) && k <= v@.len(),
            None => !is_boundary(v@, x as int),
        },
{
    let n = v.len();
    let mut k: usize = 0;
    let mut off: usize = 0;
    proof {
        assert(v@.take(0) =~= Seq::<char>::empty());
        lemma_full_take(v@);
    }
    while k < n && off < x
        invariant
            k <= n == v@.len(),
            total == blen(v@),
            off == blen(v@.take(k as int)),
            k > 0 ==> blen(v@.take(k - 1)) < x,
        decreases n - k,
    {
        let c = v[k];
        let cp = c as u32;
        let w: usize = if cp < 0x80 {
            1
        } else if cp < 0x800 {
            2
        } else if cp < 0x10000 {
            3
        } else {
            4
        };
        proof {
            lemma_take_step(v@, k as int);
            if k + 1 < n {
                lemma_take_mono(v@, k + 1, n as int);
            }
            lemma_full_take(v@);
        }
        off = off + w;
        k = k + 1;
    }
    if off == x {
        proof {
            lemma_char_at_byte(v@, k as int);
        }
        Some(k)
    } else {
        proof {
            assert forall|j: int| 0 <= j <= v@.len() implies blen(#[trigger] v@.take(j)) != x by {
                if j < k {
                    if j < k - 1 {
                        lemma_take_mono(v@, j, k - 1);
                    }
                } else if j > k {
                    lemma_take_mono(v@, k as int, j);
                }
            }
        }
        None
    }
}

/// The byte length of the first `k` chars of `v` (of byte length `total`).
pub fn prefix_byte_len(v: &Vec<char>, total: usize, k: usize) -> (r: usize)
    requires
        total == blen(v@),
        k <= v@.len(),
    ensures
        r == blen(v@.take(k as int)),
{
    let mut i: usize = 0;
    let mut off: usize = 0;
    proof {
        assert(v@.take(0) =~= Seq::<char>::empty());
        lemma_full_take(v@);
    }
    while i < k
        invariant
            i <= k <= v@.len(),
            total == blen(v@),
            off == blen(v@.take(i as int)),
        decreases k - i,
    {
        let c = v[i];
        let cp = c as u32;
        let w: usize = if cp < 0x80 {
            1
        } else if cp < 0x800 {
            2
        } else if cp < 0x10000 {
            3
        } else {
            4
        };
        proof {
            lemma_take_step(v@, i as int);
            if i + 1 < v@.len() {
                lemma_take_mono(v@, i + 1, v@.len() as int);
            }
            lemma_full_take(v@);
        }
        off = off + w;
        i = i + 1;
    }
    off
}

/// The first `k` from `from` on whose prefix of `c` takes at least `b`
/// bytes (`c.len()` when none does).
pub open spec fn first_at_or_past(c: Seq<char>, b: int, from: int) -> int
    decreases c.len() - from,
{
    if from >= c.len() || from < 0 {
        c.len() as int
    } else if blen(c.take(from)) >= b {
        from
    } else {
        first_at_or_past(c, b, from + 1)
    }
}

/// The number of chars of `v` (of byte length `total`) that start before
/// byte `b`.
pub fn chars_before_byte(v: &Vec<char>, total: usize, b: usize) -> (r: usize)
    requires
        total == blen(v@),
    ensures
        r == first_at_or_past(v@, b as int, 0),
        r <= v@.len(),
{
    let mut k: usize = 0;
    let mut off: usize = 0;
    proof {
        assert(v@.take(0) =~= Seq::<char>::empty());
        lemma_full_take(v@);
    }
    while k < v.len() && off < b
        invariant
            k <= v@.len(),
            total == blen(v@),
            off == blen(v@.take(k as int)),
            first_at_or_past(v@, b as int, 0) == first_at_or_past(v@, b as int, k as int),
        decreases v@.len() - k,
    {
        let c = v[k];
        let cp = c as u32;
        let w: usize = if cp < 0x80 {
            1
        } else if cp < 0x800 {
            2
        } else if cp < 0x10000 {
            3
        } else {
            4
        };
        proof {
            lemma_take_step(v@, k as int);
            if k + 1 < v@.len() {
                lemma_take_mono(v@, k + 1, v@.len() as int);
            }
            lemma_full_take(v@);
        }
        off = off + w;
        k = k + 1;
    }
    k
}

#[derive(Debug)]
pub struct TextBuffer {
    pub lines: Vec<String>,
    pub cursor_x: usize,
    pub cursor_y: usize,
    pub file_path: Option<PathBuf>,
    pub dirty: bool,
    pub scroll_offset: usize,
}

/// Line `y` of `ls`, or an empty line past the end.
pub open spec fn line_or_empty(ls: Seq<Seq<char>>, y: int) -> Seq<char> {
    if 0 <= y < ls.len() {
        ls[y]
    } else {
        Seq::empty()
    }
}

impl TextBuffer {
    pub open spec fn text_lines(&self) -> Seq<Seq<char>> {
        lines_view(self.lines@)
    }

    pub fn new() -> (b: Self)
        ensures
            b.text_lines() == seq![Seq::<char>::empty()],
            b.cursor_x == 0,
            b.cursor_y == 0,
            b.file_path is None,
            !b.dirty,
            b.scroll_offset == 0,
    {
        let mut lines: Vec<String> = Vec::new();
        lines.push(String::new());
        let b = TextBuffer { lines, cursor_x: 0, cursor_y: 0, file_path: None, dirty: false, scroll_offset: 0 };
        assert(b.text_lines() =~= seq![Seq::<char>::empty()]);
        b
    }

    /// A clean buffer over `contents` read from `path`.
    pub fn from_text(contents: &str, path: PathBuf) -> (b: Self)
        ensures
            b.text_lines() == initial_lines(contents@),
            b.cursor_x == 0,
            b.cursor_y == 0,
            b.file_path == Some(path),
            !b.dirty,
            b.scroll_offset == 0,
    {
        let e = crate::editor::buffer::TextBuffer::from_text(contents, path);
        TextBuffer {
            lines: e.lines,
            cursor_x: 0,
            cursor_y: 0,
            file_path: e.file_path,
            dirty: false,
            scroll_offset: 0,
        }
    }

    fn set_line(&mut self, y: usize, v: &Vec<char>)
        requires
            y < old(self).lines@.len(),
        ensures
            final(self).text_lines() == old(self).text_lines().update(y as int, v@),
            final(self).lines@.len() == old(self).lines@.len(),
            final(self).cursor_x == old(self).cursor_x,
            final(self).cursor_y == old(self).cursor_y,
            final(self).file_path == old(self).file_path,
            final(self).dirty == old(self).dirty,
            final(self).scroll_offset == old(self).scroll_offset,
    {
        self.lines.set(y, string_of(v.as_slice()));
        assert(self.text_lines() =~= old(self).text_lines().update(y as int, v@));
    }

    /// Type `c` at the cursor's byte offset (clamped to the line), then step
    /// one byte past it.
    pub fn insert_char(&mut self, c: char)
        requires
            old(self).cursor_y <= old(self).lines@.len(),
            ({
                let line = line_or_empty(old(self).text_lines(), old(self).cursor_y as int);
                &&& is_boundary(line, min(old(self).cursor_x as int, blen(line) as int))
                &&& blen(line) < usize::MAX
            }),
        ensures
            ({
                let ls = if old(self).cursor_y >= old(self).lines@.len() {
                    old(self).text_lines().push(Seq::empty())
                } else {
                    old(self).text_lines()
                };
                let y = old(self).cursor_y as int;
                let x = min(old(self).cursor_x as int, blen(ls[y]) as int);
                &&& final(self).text_lines() == ls.update(y, ls[y].insert(char_at_byte(ls[y], x), c))
                &&& final(self).cursor_x == x + 1
            }),
            final(self).cursor_y == old(self).cursor_y,
            final(self).dirty,
            final(self).file_path == old(self).file_path,
            final(self).scroll_offset == old(self).scroll_offset,
    {
        if self.cursor_y >= self.lines.len() {
            self.lines.push(String::new());
            assert(self.text_lines() =~= old(self).text_lines().push(Seq::empty()));
        }
        let y = self.cursor_y;
        let total = byte_len_of(&self.lines[y]);
        if self.cursor_x > total {
            self.cursor_x = total;
        }
        let mut line = chars_of(self.lines[y].as_str());
        match boundary_index(&line, total, self.cursor_x) {
            Some(k) => {
                line.insert(k, c);
                self.set_line(y, &line);
            },
            None => {},
        }
        self.cursor_x = self.cursor_x + 1;
        self.dirty = true;
    }

    /// Split the line at the cursor's byte offset (clamped); the cursor
    /// starts the new line. Past the last line, an empty line is added.
    pub fn insert_newline(&mut self)
        requires
            old(self).cursor_y < old(self).lines@.len() ==> ({
                let line = old(self).text_lines()[old(self).cursor_y as int];
                is_boundary(line, min(old(self).cursor_x as int, blen(line) as int))
            }),
        ensures
            old(self).cursor_y >= old(self).lines@.len() ==> {
                &&& final(self).text_lines() == old(self).text_lines().push(Seq::empty())
                &&& final(self).cursor_y == old(self).lines@.len()
            },
            old(self).cursor_y < old(self).lines@.len() ==> ({
                let y = old(self).cursor_y as int;
                let line = old(self).text_lines()[y];
                let k = char_at_byte(line, min(old(self).cursor_x as int, blen(line) as int));
                &&& final(self).text_lines() == old(self).text_lines().update(y, line.take(k)).insert(
                    y + 1,
                    line.skip(k),
                )
                &&& final(self).cursor_y == y + 1
            }),
            final(self).cursor_x == 0,
            final(self).dirty,
            final(self).file_path == old(self).file_path,
            final(self).scroll_offset == old(self).scroll_offset,
    {
        if self.cursor_y >= self.lines.len() {
            self.lines.push(String::new());
            assert(self.text_lines() =~= old(self).text_lines().push(Seq::empty()));
            self.cursor_y = self.lines.len() - 1;
            self.cursor_x = 0;
            self.dirty = true;
            return;
        }
        let y = self.cursor_y;
        let total = byte_len_of(&self.lines[y]);
        let x = if self.cursor_x < total {
            self.cursor_x
        } else {
            total
        };
        let line = chars_of(self.lines[y].as_str());
        let k = match boundary_index(&line, total, x) {
            Some(k) => k,
            None => line.len(),
        };
        let head = slice_chars(&line, 0, k);
        let tail = slice_chars(&line, k, line.len());
        self.set_line(y, &head);
        let ghost mid = self.text_lines();
        self.lines.insert(y + 1, string_of(tail.as_slice()));
        assert(self.text_lines() =~= mid.insert(y + 1, line@.skip(k as int)));
        assert(head@ =~= line@.take(k as int));
        self.cursor_y = y + 1;
        self.cursor_x = 0;
        self.dirty = true;
    }

    /// Delete the character starting one byte before the cursor (the cursor
    /// steps back one byte), or join the line onto the previous one at
    /// column 0.
    pub fn backspace(&mut self)
        requires
            old(self).cursor_y < old(self).lines@.len() || (old(self).cursor_x == 0 && old(self).cursor_y
                == 0),
            old(self).cursor_x > 0 && old(self).cursor_x <= blen(
                old(self).text_lines()[old(self).cursor_y as int],
            ) ==> is_boundary(old(self).text_lines()[old(self).cursor_y as int], old(self).cursor_x - 1),
        ensures
            ({
                let ls = old(self).text_lines();
                let x = old(self).cursor_x as int;
                let y = old(self).cursor_y as int;
                if x > 0 {
                    if x <= blen(ls[y]) {
                        &&& final(self).text_lines() == ls.update(y, ls[y].remove(char_at_byte(ls[y], x - 1)))
                        &&& final(self).cursor_x == x - 1
                        &&& final(self).cursor_y == y
                        &&& final(self).dirty
                    } else {
                        &&& final(self).text_lines() == ls
                        &&& final(self).cursor_x == x
                        &&& final(self).cursor_y == y
                        &&& final(self).dirty == old(self).dirty
                    }
                } else if y > 0 {
                    &&& final(self).text_lines() == ls.remove(y).update(y - 1, ls[y - 1] + ls[y])
                    &&& final(self).cursor_x == blen(ls[y - 1])
                    &&& final(self).cursor_y == y - 1
                    &&& final(self).dirty
                } else {
                    &&& final(self).text_lines() == ls
                    &&& final(self).cursor_x == x
                    &&& final(self).cursor_y == y
                    &&& final(self).dirty == old(self).dirty
                }
            }),
            final(self).file_path == old(self).file_path,
            final(self).scroll_offset == old(self).scroll_offset,
    {
        if self.cursor_x > 0 {
            let y = self.cursor_y;
            let total = byte_len_of(&self.lines[y]);
            if self.cursor_x <= total {
                let mut line = chars_of(self.lines[y].as_str());
                match boundary_index(&line, total, self.cursor_x - 1) {
                    Some(k) => {
                        proof {
                            if k == line@.len() {
                                lemma_full_take(line@);
                            }
                        }
                        line.remove(k);
                        self.set_line(y, &line);
                    },
                    None => {},
                }
                self.cursor_x = self.cursor_x - 1;
                self.dirty = true;
            }
        } else if self.cursor_y > 0 {
            let y = self.cursor_y;
            let ghost ls = self.text_lines();
            let current = self.lines.remove(y);
            assert(self.text_lines() =~= ls.remove(y as int));
            let n = byte_len_of(&self.lines[y - 1]);
            let mut prev = chars_of(self.lines[y - 1].as_str());
            let cur = chars_of(current.as_str());
            append_chars(&mut prev, &cur);
            self.set_line(y - 1, &prev);
            self.cursor_y = y - 1;
            self.cursor_x = n;
            self.dirty = true;
        }
    }

    /// Delete the character starting at the cursor's byte offset, or join
    /// the next line onto this one at the line's end.
    pub fn delete(&mut self)
        requires
            old(self).cursor_y < old(self).lines@.len() && old(self).cursor_x < blen(
                old(self).text_lines()[old(self).cursor_y as int],
            ) ==> is_boundary(old(self).text_lines()[old(self).cursor_y as int], old(self).cursor_x as int),
        ensures
            ({
                let ls = old(self).text_lines();
                let x = old(self).cursor_x as int;
                let y = old(self).cursor_y as int;
                if y >= ls.len() {
                    &&& final(self).text_lines() == ls
                    &&& final(self).dirty == old(self).dirty
                } else if x < blen(ls[y]) {
                    &&& final(self).text_lines() == ls.update(y, ls[y].remove(char_at_byte(ls[y], x)))
                    &&& final(self).dirty
                } else if y < ls.len() - 1 {
                    &&& final(self).text_lines() == ls.remove(y + 1).update(y, ls[y] + ls[y + 1])
                    &&& final(self).dirty
                } else {
                    &&& final(self).text_lines() == ls
                    &&& final(self).dirty == old(self).dirty
                }
            }),
            final(self).cursor_x == old(self).cursor_x,
            final(self).cursor_y == old(self).cursor_y,
            final(self).file_path == old(self).file_path,
            final(self).scroll_offset == old(self).scroll_offset,
    {
        if self.cursor_y >= self.lines.len() {
            return;
        }
        let y = self.cursor_y;
        let total = byte_len_of(&self.lines[y]);
        let mut line = chars_of(self.lines[y].as_str());
        if self.cursor_x < total {
            match boundary_index(&line, total, self.cursor_x) {
                Some(k) => {
                    proof {
                        if k == line@.len() {
                            lemma_full_take(line@);
                        }
                    }
                    line.remove(k);
                    self.set_line(y, &line);
                },
                None => {},
            }
            self.dirty = true;
        } else if y < self.lines.len() - 1 {
            let ghost ls = self.text_lines();
            let next = self.lines.remove(y + 1);
            assert(self.text_lines() =~= ls.remove(y + 1));
            let nv = chars_of(next.as_str());
            append_chars(&mut line, &nv);
            self.set_line(y, &line);
            self.dirty = true;
        }
    }

    pub fn move_cursor_left(&mut self)
        requires
            old(self).cursor_x == 0 && old(self).cursor_y > 0 ==> old(self).cursor_y - 1 < old(
                self,
            ).lines@.len(),
        ensures
            old(self).cursor_x > 0 ==> final(self).cursor_x == old(self).cursor_x - 1 && final(self).cursor_y
                == old(self).cursor_y,
            old(self).cursor_x == 0 && old(self).cursor_y > 0 ==> final(self).cursor_y == old(self).cursor_y
                - 1 && final(self).cursor_x == blen(old(self).text_lines()[old(self).cursor_y - 1]),
            old(self).cursor_x == 0 && old(self).cursor_y == 0 ==> final(self).cursor_x == 0
                && final(self).cursor_y == 0,
            final(self).lines == old(self).lines,
            final(self).dirty == old(self).dirty,
            final(self).file_path == old(self).file_path,
            final(self).scroll_offset == old(self).scroll_offset,
    {
        if self.cursor_x > 0 {
            self.cursor_x = self.cursor_x - 1;
        } else if self.cursor_y > 0 {
            self.cursor_y = self.cursor_y - 1;
            self.cursor_x = byte_len_of(&self.lines[self.cursor_y]);
        }
    }

    pub fn move_cursor_right(&mut self)
        ensures
            ({
                let ls = old(self).text_lines();
                let x = old(self).cursor_x as int;
                let y = old(self).cursor_y as int;
                if y >= ls.len() {
                    final(self).cursor_x == x && final(self).cursor_y == y
                } else if x < blen(ls[y]) {
                    final(self).cursor_x == x + 1 && final(self).cursor_y == y
                } else if y < ls.len() - 1 {
                    final(self).cursor_x == 0 && final(self).cursor_y == y + 1
                } else {
                    final(self).cursor_x == x && final(self).cursor_y == y
                }
            }),
            final(self).lines == old(self).lines,
            final(self).dirty == old(self).dirty,
            final(self).file_path == old(self).file_path,
            final(self).scroll_offset == old(self).scroll_offset,
    {
        if self.cursor_y >= self.lines.len() {
            return;
        }
        let line_len = byte_len_of(&self.lines[self.cursor_y]);
        if self.cursor_x < line_len {
            self.cursor_x = self.cursor_x + 1;
        } else if self.cursor_y < self.lines.len() - 1 {
            self.cursor_y = self.cursor_y + 1;
            self.cursor_x = 0;
        }
    }

    pub fn move_cursor_up(&mut self)
        requires
            old(self).cursor_y > 0 ==> old(self).cursor_y - 1 < old(self).lines@.len(),
        ensures
            old(self).cursor_y > 0 ==> final(self).cursor_y == old(self).cursor_y - 1 && final(self).cursor_x
                == min(old(self).cursor_x as int, blen(old(self).text_lines()[old(self).cursor_y - 1]) as int),
            old(self).cursor_y == 0 ==> final(self).cursor_y == 0 && final(self).cursor_x == old(self).cursor_x,
            final(self).lines == old(self).lines,
            final(self).dirty == old(self).dirty,
            final(self).file_path == old(self).file_path,
            final(self).scroll_offset == old(self).scroll_offset,
    {
        if self.cursor_y > 0 {
            self.cursor_y = self.cursor_y - 1;
            let line_len = byte_len_of(&self.lines[self.cursor_y]);
            if line_len < self.cursor_x {
                self.cursor_x = line_len;
            }
        }
    }

    pub fn move_cursor_down(&mut self)
        requires
            old(self).lines@.len() > 0,
        ensures
            old(self).cursor_y < old(self).lines@.len() - 1 ==> final(self).cursor_y == old(self).cursor_y + 1
                && final(self).cursor_x == min(
                old(self).cursor_x as int,
                blen(old(self).text_lines()[old(self).cursor_y + 1]) as int,
            ),
            old(self).cursor_y >= old(self).lines@.len() - 1 ==> final(self).cursor_y == old(self).cursor_y
                && final(self).cursor_x == old(self).cursor_x,
            final(self).lines == old(self).lines,
            final(self).dirty == old(self).dirty,
            final(self).file_path == old(self).file_path,
            final(self).scroll_offset == old(self).scroll_offset,
    {
        if self.cursor_y < self.lines.len() - 1 {
            self.cursor_y = self.cursor_y + 1;
            let line_len = byte_len_of(&self.lines[self.cursor_y]);
            if line_len < self.cursor_x {
                self.cursor_x = line_len;
            }
        }
    }

    pub fn move_to_line_start(&mut self)
        ensures
            final(self).cursor_x == 0,
            final(self).cursor_y == old(self).cursor_y,
            final(self).lines == old(self).lines,
            final(self).dirty == old(self).dirty,
            final(self).file_path == old(self).file_path,
            final(self).scroll_offset == old(self).scroll_offset,
    {
        self.cursor_x = 0;
    }

    pub fn move_to_line_end(&mut self)
        ensures
            old(self).cursor_y < old(self).lines@.len() ==> final(self).cursor_x == blen(
                old(self).text_lines()[old(self).cursor_y as int],
            ),
            old(self).cursor_y >= old(self).lines@.len() ==> final(self).cursor_x == old(self).cursor_x,
            final(self).cursor_y == old(self).cursor_y,
            final(self).lines == old(self).lines,
            final(self).dirty == old(self).dirty,
            final(self).file_path == old(self).file_path,
            final(self).scroll_offset == old(self).scroll_offset,
    {
        if self.cursor_y < self.lines.len() {
            self.cursor_x = byte_len_of(&self.lines[self.cursor_y]);
        }
    }

    /// Point the buffer at `path`; writing it (and then `mark_saved`) is
    /// the caller's part.
    pub fn save_as(&mut self, path: PathBuf)
        ensures
            final(self).file_path == Some(path),
            final(self).lines == old(self).lines,
            final(self).cursor_x == old(self).cursor_x,
            final(self).cursor_y == old(self).cursor_y,
            final(self).dirty == old(self).dirty,
            final(self).scroll_offset == old(self).scroll_offset,
    {
        self.file_path = Some(path);
    }

    /// The contents were written out.
    pub fn mark_saved(&mut self)
        ensures
            !final(self).dirty,
            final(self).file_path == old(self).file_path,
            final(self).lines == old(self).lines,
            final(self).cursor_x == old(self).cursor_x,
            final(self).cursor_y == old(self).cursor_y,
            final(self).scroll_offset == old(self).scroll_offset,
    {
        self.dirty = false;
    }

    /// The text: the lines joined with `\n`.
    pub fn get_content(&self) -> (r: String)
        ensures
            r@ == join_lines(self.text_lines()),
    {
        let ghost ls = self.text_lines();
        let mut out: Vec<char> = Vec::new();
        let mut i: usize = 0;
        assert(ls.take(0) =~= Seq::<Seq<char>>::empty());
        while i < self.lines.len()
            invariant
                i <= ls.len(),
                ls == self.text_lines(),
                out@ == join_lines(ls.take(i as int)),
            decreases ls.len() - i,
        {
            let ghost before = out@;
            if i > 0 {
                out.push('\n');
            }
            let l = chars_of(self.lines[i].as_str());
            append_chars(&mut out, &l);
            assert(ls.take(i + 1).drop_last() =~= ls.take(i as int));
            assert(ls.take(i + 1).last() == ls[i as int]);
            if i == 0 {
                assert(out@ =~= ls.take(1)[0]);
            } else {
                assert(out@ =~= before + seq!['\n'] + ls[i as int]);
            }
            i = i + 1;
        }
        assert(ls.take(ls.len() as int) =~= ls);
        string_of(out.as_slice())
    }

    /// The file's name, or `[No Name]`.
    pub fn filename(&self) -> (r: String)
        ensures
            r@ == match self.file_path {
                Some(p) => match file_name_of(p) {
                    Some(n) => n,
                    None => no_name(),
                },
                None => no_name(),
            },
    {
        let named = match &self.file_path {
            Some(p) => file_name(p),
            None => None,
        };
        match named {
            Some(n) => n,
            None => {
                let v = vec!['[', 'N', 'o', ' ', 'N', 'a', 'm', 'e', ']'];
                assert(v@ =~= no_name());
                string_of(v.as_slice())
            },
        }
    }
}

impl Default for TextBuffer {
    fn default() -> (b: Self)
        ensures
            b.text_lines() == seq![Seq::<char>::empty()],
            b.cursor_x == 0,
            b.cursor_y == 0,
            b.file_path is None,
            !b.dirty,
    {
        TextBuffer::new()
    }
}

} // verus!
