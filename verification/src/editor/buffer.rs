//! The desktop editor's line buffer: lines of text with a cursor whose
//! column counts characters (not bytes). Reading and writing the file is
//! the front-end's part.

use vstd::prelude::*;
use std::path::PathBuf;
use crate::lines::{split_lines, lines_of, views_of};
use crate::paths::{file_name_of, file_name};
use crate::text::{chars_of, string_of, append_chars, slice_chars};

verus! {

#[derive(Debug, Clone)]
pub struct TextBuffer {
    pub lines: Vec<String>,
    /// Cursor column as a character index (not a byte index).
    pub cursor_x: usize,
    pub cursor_y: usize,
    pub file_path: Option<PathBuf>,
    pub dirty: bool,
    pub scroll_offset: usize,
}

/// The lines as char sequences.
pub open spec fn lines_view(ls: Seq<String>) -> Seq<Seq<char>> {
    ls.map_values(|l: String| l@)
}

/// The lines joined with `\n`.
pub open spec fn join_lines(ls: Seq<Seq<char>>) -> Seq<char>
    decreases ls.len(),
{
    if ls.len() == 0 {
        Seq::empty()
    } else if ls.len() == 1 {
        ls[0]
    } else {
        join_lines(ls.drop_last()) + seq!['\n'] + ls.last()
    }
}

pub open spec fn min(a: int, b: int) -> int {
    if a <= b {
        a
    } else {
        b
    }
}

/// The lines a buffer over `contents` starts with: one empty line for an
/// empty text, else its lines.
pub open spec fn initial_lines(contents: Seq<char>) -> Seq<Seq<char>> {
    if contents.len() == 0 {
        seq![Seq::<char>::empty()]
    } else {
        lines_of(contents)
    }
}

/// What an unnamed buffer is called.
pub open spec fn no_name() -> Seq<char> {
    seq!['[', 'N', 'o', ' ', 'N', 'a', 'm', 'e', ']']
}

/// Typing `c` at column `x` (clamped to the line) of line `y`, as (lines,
/// column, line) afterwards: past the last line an empty line is added
/// first, and the cursor steps past the char.
pub open spec fn insert_char_effect(ls: Seq<Seq<char>>, x: int, y: int, c: char) -> (Seq<Seq<char>>, int, int) {
    let ls2 = if y >= ls.len() {
        ls.push(Seq::empty())
    } else {
        ls
    };
    let x2 = min(x, ls2[y].len() as int);
    (ls2.update(y, ls2[y].insert(x2, c)), x2 + 1, y)
}

/// Enter at column `x` (clamped) of line `y`: the line splits there and the
/// cursor starts the new line; past the last line an empty line is added.
pub open spec fn newline_effect(ls: Seq<Seq<char>>, x: int, y: int) -> (Seq<Seq<char>>, int, int) {
    if y >= ls.len() {
        (ls.push(Seq::empty()), 0, ls.len() as int)
    } else {
        let x2 = min(x, ls[y].len() as int);
        (ls.update(y, ls[y].take(x2)).insert(y + 1, ls[y].skip(x2)), 0, y + 1)
    }
}

/// Backspace at column `x` of line `y`: the char before the cursor goes
/// (nothing happens past the line's end); at column 0 the line joins the
/// previous one and the cursor lands at the join.
pub open spec fn backspace_effect(ls: Seq<Seq<char>>, x: int, y: int) -> (Seq<Seq<char>>, int, int) {
    if x > 0 {
        if x <= ls[y].len() {
            (ls.update(y, ls[y].remove(x - 1)), x - 1, y)
        } else {
            (ls, x, y)
        }
    } else if y > 0 {
        (ls.remove(y).update(y - 1, ls[y - 1] + ls[y]), ls[y - 1].len() as int, y - 1)
    } else {
        (ls, x, y)
    }
}

/// Backspace changes the text (otherwise it leaves the buffer as it was).
pub open spec fn backspace_edits(ls: Seq<Seq<char>>, x: int, y: int) -> bool {
    (x > 0 && x <= ls[y].len()) || (x == 0 && y > 0)
}

fn char_count(s: &String) -> (n: usize)
    ensures
        n == s@.len(),
{
    chars_of(s.as_str()).len()
}

impl TextBuffer {
    pub open spec fn text_lines(&self) -> Seq<Seq<char>> {
        lines_view(self.lines@)
    }

    pub fn new() -> (b: Self)
        ensures
            b.text_lines() == seq![Seq::<char>::empty()],
            b.cursor_x == 0,
            b.cursor_y == 0,
            b.file_path is None,
            !b.dirty,
            b.scroll_offset == 0,
    {
        let mut lines: Vec<String> = Vec::new();
        lines.push(String::new());
        let b = TextBuffer { lines, cursor_x: 0, cursor_y: 0, file_path: None, dirty: false, scroll_offset: 0 };
        assert(b.text_lines() =~= seq![Seq::<char>::empty()]);
        b
    }

    /// A clean buffer over `contents` read from `path`.
    pub fn from_text(contents: &str, path: PathBuf) -> (b: Self)
        ensures
            b.text_lines() == initial_lines(contents@),
            b.cursor_x == 0,
            b.cursor_y == 0,
            b.file_path == Some(path),
            !b.dirty,
            b.scroll_offset == 0,
    {
        let cs = chars_of(contents);
        let mut lines: Vec<String> = Vec::new();
        if cs.len() == 0 {
            lines.push(String::new());
            assert(lines_view(lines@) =~= seq![Seq::<char>::empty()]);
        } else {
            let ls = split_lines(&cs);
            let mut i: usize = 0;
            while i < ls.len()
                invariant
                    i <= ls@.len(),
                    lines_view(lines@) == views_of(ls@).take(i as int),
                decreases ls@.len() - i,
            {
                let line = string_of(ls[i].as_slice());
                assert(line@ == views_of(ls@)[i as int]);
                let ghost before = lines@;
                lines.push(line);
                assert(lines_view(lines@) =~= lines_view(before).push(line@));
                assert(views_of(ls@).take(i + 1) =~= views_of(ls@).take(i as int).push(views_of(ls@)[i as int]));
                i = i + 1;
            }
            assert(views_of(ls@).take(ls@.len() as int) =~= views_of(ls@));
        }
        TextBuffer { lines, cursor_x: 0, cursor_y: 0, file_path: Some(path), dirty: false, scroll_offset: 0 }
    }

    fn set_line(&mut self, y: usize, v: &Vec<char>)
        requires
            y < old(self).lines@.len(),
        ensures
            final(self).text_lines() == old(self).text_lines().update(y as int, v@),
            final(self).lines@.len() == old(self).lines@.len(),
            final(self).cursor_x == old(self).cursor_x,
            final(self).cursor_y == old(self).cursor_y,
            final(self).file_path == old(self).file_path,
            final(self).dirty == old(self).dirty,
            final(self).scroll_offset == old(self).scroll_offset,
    {
        self.lines.set(y, string_of(v.as_slice()));
        assert(self.text_lines() =~= old(self).text_lines().update(y as int, v@));
    }

    /// Type `c` at the cursor (clamped to the line), then step past it.
    pub fn insert_char(&mut self, c: char)
        requires
            old(self).cursor_y <= old(self).lines@.len(),
            old(self).cursor_y < old(self).lines@.len() ==> old(self).lines@[old(self).cursor_y as int]@.len()
                < usize::MAX,
        ensures
            (final(self).text_lines(), final(self).cursor_x as int, final(self).cursor_y as int)
                == insert_char_effect(
                old(self).text_lines(),
                old(self).cursor_x as int,
                old(self).cursor_y as int,
                c,
            ),
            final(self).dirty,
            final(self).file_path == old(self).file_path,
            final(self).scroll_offset == old(self).scroll_offset,
    {
        if self.cursor_y >= self.lines.len() {
            self.lines.push(String::new());
            assert(self.text_lines() =~= old(self).text_lines().push(Seq::empty()));
        }
        let y = self.cursor_y;
        let mut line = chars_of(self.lines[y].as_str());
        if self.cursor_x > line.len() {
            self.cursor_x = line.len();
        }
        line.insert(self.cursor_x, c);
        self.set_line(y, &line);
        self.cursor_x = self.cursor_x + 1;
        self.dirty = true;
    }

    /// Split the line at the cursor (clamped); the cursor starts the new
    /// line. Past the last line, an empty line is added instead.
    pub fn insert_newline(&mut self)
        ensures
            (final(self).text_lines(), final(self).cursor_x as int, final(self).cursor_y as int)
                == newline_effect(old(self).text_lines(), old(self).cursor_x as int, old(self).cursor_y as int),
            final(self).dirty,
            final(self).file_path == old(self).file_path,
            final(self).scroll_offset == old(self).scroll_offset,
    {
        if self.cursor_y >= self.lines.len() {
            self.lines.push(String::new());
            assert(self.text_lines() =~= old(self).text_lines().push(Seq::empty()));
            self.cursor_y = self.lines.len() - 1;
            self.cursor_x = 0;
            self.dirty = true;
            return;
        }
        let y = self.cursor_y;
        let line = chars_of(self.lines[y].as_str());
        let x = if self.cursor_x < line.len() {
            self.cursor_x
        } else {
            line.len()
        };
        let head = slice_chars(&line, 0, x);
        let tail = slice_chars(&line, x, line.len());
        self.set_line(y, &head);
        let ghost mid = self.text_lines();
        self.lines.insert(y + 1, string_of(tail.as_slice()));
        assert(self.text_lines() =~= mid.insert(y + 1, line@.skip(x as int)));
        assert(head@ =~= line@.take(x as int));
        self.cursor_y = y + 1;
        self.cursor_x = 0;
        self.dirty = true;
    }

    /// Delete the character before the cursor, or join the line onto the
    /// previous one at column 0.
    pub fn backspace(&mut self)
        requires
            old(self).cursor_y < old(self).lines@.len() || (old(self).cursor_x == 0 && old(self).cursor_y
                == 0),
        ensures
            (final(self).text_lines(), final(self).cursor_x as int, final(self).cursor_y as int)
                == backspace_effect(old(self).text_lines(), old(self).cursor_x as int, old(self).cursor_y as int),
            backspace_edits(old(self).text_lines(), old(self).cursor_x as int, old(self).cursor_y as int)
                ==> final(self).dirty,
            !backspace_edits(old(self).text_lines(), old(self).cursor_x as int, old(self).cursor_y as int)
                ==> final(self).dirty == old(self).dirty,
            final(self).file_path == old(self).file_path,
            final(self).scroll_offset == old(self).scroll_offset,
    {
        if self.cursor_x > 0 {
            let y = self.cursor_y;
            let mut line = chars_of(self.lines[y].as_str());
            if self.cursor_x <= line.len() {
                line.remove(self.cursor_x - 1);
                self.set_line(y, &line);
                self.cursor_x = self.cursor_x - 1;
                self.dirty = true;
            }
        } else if self.cursor_y > 0 {
            let y = self.cursor_y;
            let ghost ls = self.text_lines();
            let current = self.lines.remove(y);
            assert(self.text_lines() =~= ls.remove(y as int));
            let mut prev = chars_of(self.lines[y - 1].as_str());
            let n = prev.len();
            let cur = chars_of(current.as_str());
            append_chars(&mut prev, &cur);
            self.set_line(y - 1, &prev);
            self.cursor_y = y - 1;
            self.cursor_x = n;
            self.dirty = true;
        }
    }

    /// Delete the character under the cursor, or join the next line onto
    /// this one at the line's end.
    pub fn delete(&mut self)
        ensures
            ({
                let ls = old(self).text_lines();
                let x = old(self).cursor_x as int;
                let y = old(self).cursor_y as int;
                if y >= ls.len() {
                    &&& final(self).text_lines() == ls
                    &&& final(self).dirty == old(self).dirty
                } else if x < ls[y].len() {
                    &&& final(self).text_lines() == ls.update(y, ls[y].remove(x))
                    &&& final(self).dirty
                } else if y < ls.len() - 1 {
                    &&& final(self).text_lines() == ls.remove(y + 1).update(y, ls[y] + ls[y + 1])
                    &&& final(self).dirty
                } else {
                    &&& final(self).text_lines() == ls
                    &&& final(self).dirty == old(self).dirty
                }
            }),
            final(self).cursor_x == old(self).cursor_x,
            final(self).cursor_y == old(self).cursor_y,
            final(self).file_path == old(self).file_path,
            final(self).scroll_offset == old(self).scroll_offset,
    {
        if self.cursor_y >= self.lines.len() {
            return;
        }
        let y = self.cursor_y;
        let mut line = chars_of(self.lines[y].as_str());
        if self.cursor_x < line.len() {
            line.remove(self.cursor_x);
            self.set_line(y, &line);
            self.dirty = true;
        } else if y < self.lines.len() - 1 {
            let ghost ls = self.text_lines();
            let next = self.lines.remove(y + 1);
            assert(self.text_lines() =~= ls.remove(y + 1));
            let nv = chars_of(next.as_str());
            append_chars(&mut line, &nv);
            self.set_line(y, &line);
            self.dirty = true;
        }
    }

    pub fn move_cursor_left(&mut self)
        requires
            old(self).cursor_x == 0 && old(self).cursor_y > 0 ==> old(self).cursor_y - 1 < old(
                self,
            ).lines@.len(),
        ensures
            old(self).cursor_x > 0 ==> final(self).cursor_x == old(self).cursor_x - 1 && final(self).cursor_y
                == old(self).cursor_y,
            old(self).cursor_x == 0 && old(self).cursor_y > 0 ==> final(self).cursor_y == old(self).cursor_y
                - 1 && final(self).cursor_x == old(self).text_lines()[old(self).cursor_y - 1].len(),
            old(self).cursor_x == 0 && old(self).cursor_y == 0 ==> final(self).cursor_x == 0
                && final(self).cursor_y == 0,
            final(self).lines == old(self).lines,
            final(self).dirty == old(self).dirty,
            final(self).file_path == old(self).file_path,
            final(self).scroll_offset == old(self).scroll_offset,
    {
        if self.cursor_x > 0 {
            self.cursor_x = self.cursor_x - 1;
        } else if self.cursor_y > 0 {
            self.cursor_y = self.cursor_y - 1;
            self.cursor_x = char_count(&self.lines[self.cursor_y]);
        }
    }

    pub fn move_cursor_right(&mut self)
        ensures
            ({
                let ls = old(self).text_lines();
                let x = old(self).cursor_x as int;
                let y = old(self).cursor_y as int;
                if y >= ls.len() {
                    final(self).cursor_x == x && final(self).cursor_y == y
                } else if x < ls[y].len() {
                    final(self).cursor_x == x + 1 && final(self).cursor_y == y
                } else if y < ls.len() - 1 {
                    final(self).cursor_x == 0 && final(self).cursor_y == y + 1
                } else {
                    final(self).cursor_x == x && final(self).cursor_y == y
                }
            }),
            final(self).lines == old(self).lines,
            final(self).dirty == old(self).dirty,
            final(self).file_path == old(self).file_path,
            final(self).scroll_offset == old(self).scroll_offset,
    {
        if self.cursor_y >= self.lines.len() {
            return;
        }
        let line_len = char_count(&self.lines[self.cursor_y]);
        if self.cursor_x < line_len {
            self.cursor_x = self.cursor_x + 1;
        } else if self.cursor_y < self.lines.len() - 1 {
            self.cursor_y = self.cursor_y + 1;
            self.cursor_x = 0;
        }
    }

    pub fn move_cursor_up(&mut self)
        requires
            old(self).cursor_y > 0 ==> old(self).cursor_y - 1 < old(self).lines@.len(),
        ensures
            old(self).cursor_y > 0 ==> final(self).cursor_y == old(self).cursor_y - 1 && final(self).cursor_x
                == min(old(self).cursor_x as int, old(self).text_lines()[old(self).cursor_y - 1].len() as int),
            old(self).cursor_y == 0 ==> final(self).cursor_y == 0 && final(self).cursor_x == old(self).cursor_x,
            final(self).lines == old(self).lines,
            final(self).dirty == old(self).dirty,
            final(self).file_path == old(self).file_path,
            final(self).scroll_offset == old(self).scroll_offset,
    {
        if self.cursor_y > 0 {
            self.cursor_y = self.cursor_y - 1;
            let line_len = char_count(&self.lines[self.cursor_y]);
            if line_len < self.cursor_x {
                self.cursor_x = line_len;
            }
        }
    }

    pub fn move_cursor_down(&mut self)
        requires
            old(self).lines@.len() > 0,
        ensures
            old(self).cursor_y < old(self).lines@.len() - 1 ==> final(self).cursor_y == old(self).cursor_y + 1
                && final(self).cursor_x == min(
                old(self).cursor_x as int,
                old(self).text_lines()[old(self).cursor_y + 1].len() as int,
            ),
            old(self).cursor_y >= old(self).lines@.len() - 1 ==> final(self).cursor_y == old(self).cursor_y
                && final(self).cursor_x == old(self).cursor_x,
            final(self).lines == old(self).lines,
            final(self).dirty == old(self).dirty,
            final(self).file_path == old(self).file_path,
            final(self).scroll_offset == old(self).scroll_offset,
    {
        if self.cursor_y < self.lines.len() - 1 {
            self.cursor_y = self.cursor_y + 1;
            let line_len = char_count(&self.lines[self.cursor_y]);
            if line_len < self.cursor_x {
                self.cursor_x = line_len;
            }
        }
    }

    pub fn move_to_line_start(&mut self)
        ensures
            final(self).cursor_x == 0,
            final(self).cursor_y == old(self).cursor_y,
            final(self).lines == old(self).lines,
            final(self).dirty == old(self).dirty,
            final(self).file_path == old(self).file_path,
            final(self).scroll_offset == old(self).scroll_offset,
    {
        self.cursor_x = 0;
    }

    pub fn move_to_line_end(&mut self)
        ensures
            old(self).cursor_y < old(self).lines@.len() ==> final(self).cursor_x == old(
                self,
            ).text_lines()[old(self).cursor_y as int].len(),
            old(self).cursor_y >= old(self).lines@.len() ==> final(self).cursor_x == old(self).cursor_x,
            final(self).cursor_y == old(self).cursor_y,
            final(self).lines == old(self).lines,
            final(self).dirty == old(self).dirty,
            final(self).file_path == old(self).file_path,
            final(self).scroll_offset == old(self).scroll_offset,
    {
        if self.cursor_y < self.lines.len() {
            self.cursor_x = char_count(&self.lines[self.cursor_y]);
        }
    }

    /// Point the buffer at `path`; writing it (and then `mark_saved`) is
    /// the caller's part.
    pub fn save_as(&mut self, path: PathBuf)
        ensures
            final(self).file_path == Some(path),
            final(self).lines == old(self).lines,
            final(self).cursor_x == old(self).cursor_x,
            final(self).cursor_y == old(self).cursor_y,
            final(self).dirty == old(self).dirty,
            final(self).scroll_offset == old(self).scroll_offset,
    {
        self.file_path = Some(path);
    }

    /// The contents were written out.
    pub fn mark_saved(&mut self)
        ensures
            !final(self).dirty,
            final(self).file_path == old(self).file_path,
            final(self).lines == old(self).lines,
            final(self).cursor_x == old(self).cursor_x,
            final(self).cursor_y == old(self).cursor_y,
            final(self).scroll_offset == old(self).scroll_offset,
    {
        self.dirty = false;
    }

    /// The text: the lines joined with `\n`.
    pub fn get_content(&self) -> (r: String)
        ensures
            r@ == join_lines(self.text_lines()),
    {
        let ghost ls = self.text_lines();
        let mut out: Vec<char> = Vec::new();
        let mut i: usize = 0;
        assert(ls.take(0) =~= Seq::<Seq<char>>::empty());
        while i < self.lines.len()
            invariant
                i <= ls.len(),
                ls == self.text_lines(),
                out@ == join_lines(ls.take(i as int)),
            decreases ls.len() - i,
        {
            let ghost before = out@;
            if i > 0 {
                out.push('\n');
            }
            let l = chars_of(self.lines[i].as_str());
            append_chars(&mut out, &l);
            assert(ls.take(i + 1).drop_last() =~= ls.take(i as int));
            assert(ls.take(i + 1).last() == ls[i as int]);
            if i == 0 {
                assert(out@ =~= ls.take(1)[0]);
            } else {
                assert(out@ =~= before + seq!['\n'] + ls[i as int]);
            }
            i = i + 1;
        }
        assert(ls.take(ls.len() as int) =~= ls);
        string_of(out.as_slice())
    }

    /// The file's name, or `[No Name]`.
    pub fn filename(&self) -> (r: String)
        ensures
            r@ == match self.file_path {
                Some(p) => match file_name_of(p) {
                    Some(n) => n,
                    None => no_name(),
                },
                None => no_name(),
            },
    {
        let named = match &self.file_path {
            Some(p) => file_name(p),
            None => None,
        };
        match named {
            Some(n) => n,
            None => {
                let v = vec!['[', 'N', 'o', ' ', 'N', 'a', 'm', 'e', ']'];
                assert(v@ =~= no_name());
                string_of(v.as_slice())
            },
        }
    }
}

impl Default for TextBuffer {
    fn default() -> (b: Self)
        ensures
            b.text_lines() == seq![Seq::<char>::empty()],
            b.cursor_x == 0,
            b.cursor_y == 0,
            b.file_path is None,
            !b.dirty,
    {
        TextBuffer::new()
    }
}

/// Typing a character and then pressing Backspace gives back the lines and
/// the cursor as they were (for a cursor on a line, within it).
pub proof fn lemma_type_then_backspace(ls: Seq<Seq<char>>, x: int, y: int, c: char)
    requires
        0 <= y < ls.len(),
        0 <= x <= ls[y].len(),
    ensures
        ({
            let (typed, tx, ty) = insert_char_effect(ls, x, y, c);
            backspace_effect(typed, tx, ty) == (ls, x, y)
        }),
{
    let (typed, tx, ty) = insert_char_effect(ls, x, y, c);
    assert(tx == x + 1 && ty == y);
    assert(typed[y].remove(x) =~= ls[y]);
    assert(typed.update(y, typed[y].remove(x)) =~= ls);
}

/// Splitting a line with Enter and then pressing Backspace at the start of
/// the new line joins it back, with the cursor where it was (for a cursor
/// on a line, within it).
pub proof fn lemma_newline_then_backspace(ls: Seq<Seq<char>>, x: int, y: int)
    requires
        0 <= y < ls.len(),
        0 <= x <= ls[y].len(),
    ensures
        ({
            let (split, sx, sy) = newline_effect(ls, x, y);
            backspace_effect(split, sx, sy) == (ls, x, y)
        }),
{
    let (split, sx, sy) = newline_effect(ls, x, y);
    assert(sx == 0 && sy == y + 1);
    assert(split[y] + split[y + 1] =~= ls[y]);
    assert(split.remove(y + 1) =~= ls.update(y, ls[y].take(x)));
    assert(split.remove(y + 1).update(y, split[y] + split[y + 1]) =~= ls);
}

} // verus!
