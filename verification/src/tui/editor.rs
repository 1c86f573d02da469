//! The terminal editor's key handling, as a step from the editor's state and
//! a key press to the next state and what the front-end must do (save the
//! buffer, or nothing). Drawing and the terminal are the front-end's.

use vstd::prelude::*;
use std::path::PathBuf;
use crate::tui::buffer::{TextBuffer, blen, is_boundary, char_at_byte, line_or_empty};
use crate::editor::buffer::{min, no_name};
use crate::paths::{file_name_of, pathbuf_of, path_from};
use crate::text::{chars_of, string_of, append_chars, decimal, dec_of};

verus! {

/// A key, as the editor tells keys apart.
#[derive(Debug, Clone, Copy, PartialEq, Eq, Structural)]
pub enum Key {
    Char(char),
    Left,
    Right,
    Up,
    Down,
    Home,
    End,
    Enter,
    Backspace,
    Delete,
    Tab,
    Esc,
    Other,
}

/// The modifiers held: none, exactly Shift, exactly Control, or another
/// combination (which may include Control).
#[derive(Debug, Clone, Copy, PartialEq, Eq, Structural)]
pub enum Mods {
    Plain,
    Shift,
    Control,
    Combo { control: bool },
}

#[derive(Debug, Clone, Copy, PartialEq, Eq, Structural)]
pub struct KeyPress {
    pub key: Key,
    pub mods: Mods,
}

#[derive(Debug, Clone, Copy, PartialEq, Eq, Structural)]
pub enum EditorMode {
    Normal,
    Preview,
    SaveAs,
}

/// What the front-end does after a key: nothing, or write the buffer to its
/// path and report back (`save_done` / `save_as_done`).
#[derive(Debug, Clone, Copy, PartialEq, Eq, Structural)]
pub enum EditorAction {
    Nothing,
    Save,
    SaveAs,
}

pub struct Editor {
    pub buffer: TextBuffer,
    pub mode: EditorMode,
    pub should_quit: bool,
    pub should_deploy: bool,
    pub message: Option<String>,
    pub save_as_input: String,
}

/// A buffer as values.
pub struct BufV {
    pub lines: Seq<Seq<char>>,
    pub x: int,
    pub y: int,
    pub path: Option<PathBuf>,
    pub dirty: bool,
    pub scroll: int,
}

pub open spec fn bv(b: TextBuffer) -> BufV {
    BufV {
        lines: b.text_lines(),
        x: b.cursor_x as int,
        y: b.cursor_y as int,
        path: b.file_path,
        dirty: b.dirty,
        scroll: b.scroll_offset as int,
    }
}

/// `insert_char` can run: the cursor is on a line or just past the last
/// one, and the (clamped) offset starts a character.
pub open spec fn insert_ok(b: BufV) -> bool {
    let line = line_or_empty(b.lines, b.y);
    &&& 0 <= b.y <= b.lines.len()
    &&& is_boundary(line, min(b.x, blen(line) as int))
    &&& blen(line) < usize::MAX
}

pub open spec fn insert_spec(b: BufV, c: char) -> BufV {
    let ls = if b.y >= b.lines.len() {
        b.lines.push(Seq::empty())
    } else {
        b.lines
    };
    let x = min(b.x, blen(ls[b.y]) as int);
    BufV { lines: ls.update(b.y, ls[b.y].insert(char_at_byte(ls[b.y], x), c)), x: x + 1, dirty: true, ..b }
}

pub open spec fn newline_ok(b: BufV) -> bool {
    b.y < b.lines.len() ==> is_boundary(b.lines[b.y], min(b.x, blen(b.lines[b.y]) as int))
}

pub open spec fn newline_spec(b: BufV) -> BufV {
    if b.y >= b.lines.len() {
        BufV { lines: b.lines.push(Seq::empty()), y: b.lines.len() as int, x: 0, dirty: true, ..b }
    } else {
        let line = b.lines[b.y];
        let k = char_at_byte(line, min(b.x, blen(line) as int));
        BufV {
            lines: b.lines.update(b.y, line.take(k)).insert(b.y + 1, line.skip(k)),
            y: b.y + 1,
            x: 0,
            dirty: true,
            ..b
        }
    }
}

pub open spec fn backspace_ok(b: BufV) -> bool {
    &&& (0 <= b.y < b.lines.len() || (b.x == 0 && b.y == 0))
    &&& (b.x > 0 && b.x <= blen(b.lines[b.y]) ==> is_boundary(b.lines[b.y], b.x - 1))
}

pub open spec fn backspace_spec(b: BufV) -> BufV {
    if b.x > 0 {
        if b.x <= blen(b.lines[b.y]) {
            BufV {
                lines: b.lines.update(b.y, b.lines[b.y].remove(char_at_byte(b.lines[b.y], b.x - 1))),
                x: b.x - 1,
                dirty: true,
                ..b
            }
        } else {
            b
        }
    } else if b.y > 0 {
        BufV {
            lines: b.lines.remove(b.y).update(b.y - 1, b.lines[b.y - 1] + b.lines[b.y]),
            x: blen(b.lines[b.y - 1]) as int,
            y: b.y - 1,
            dirty: true,
            ..b
        }
    } else {
        b
    }
}

pub open spec fn delete_ok(b: BufV) -> bool {
    0 <= b.y < b.lines.len() && b.x < blen(b.lines[b.y]) ==> is_boundary(b.lines[b.y], b.x)
}

pub open spec fn delete_spec(b: BufV) -> BufV {
    if b.y >= b.lines.len() {
        b
    } else if b.x < blen(b.lines[b.y]) {
        BufV { lines: b.lines.update(b.y, b.lines[b.y].remove(char_at_byte(b.lines[b.y], b.x))), dirty: true, ..b }
    } else if b.y < b.lines.len() - 1 {
        BufV { lines: b.lines.remove(b.y + 1).update(b.y, b.lines[b.y] + b.lines[b.y + 1]), dirty: true, ..b }
    } else {
        b
    }
}

pub open spec fn left_ok(b: BufV) -> bool {
    b.x == 0 && b.y > 0 ==> b.y - 1 < b.lines.len()
}

pub open spec fn left_spec(b: BufV) -> BufV {
    if b.x > 0 {
        BufV { x: b.x - 1, ..b }
    } else if b.y > 0 {
        BufV { y: b.y - 1, x: blen(b.lines[b.y - 1]) as int, ..b }
    } else {
        b
    }
}

pub open spec fn right_spec(b: BufV) -> BufV {
    if b.y >= b.lines.len() {
        b
    } else if b.x < blen(b.lines[b.y]) {
        BufV { x: b.x + 1, ..b }
    } else if b.y < b.lines.len() - 1 {
        BufV { y: b.y + 1, x: 0, ..b }
    } else {
        b
    }
}

pub open spec fn up_ok(b: BufV) -> bool {
    b.y > 0 ==> b.y - 1 < b.lines.len()
}

pub open spec fn up_spec(b: BufV) -> BufV {
    if b.y > 0 {
        BufV { y: b.y - 1, x: min(b.x, blen(b.lines[b.y - 1]) as int), ..b }
    } else {
        b
    }
}

pub open spec fn down_spec(b: BufV) -> BufV {
    if b.y < b.lines.len() - 1 {
        BufV { y: b.y + 1, x: min(b.x, blen(b.lines[b.y + 1]) as int), ..b }
    } else {
        b
    }
}

pub open spec fn end_spec(b: BufV) -> BufV {
    if b.y < b.lines.len() {
        BufV { x: blen(b.lines[b.y]) as int, ..b }
    } else {
        b
    }
}

/// Tab types four spaces.
pub open spec fn tab_ok(b: BufV) -> bool {
    let b1 = insert_spec(b, ' ');
    let b2 = insert_spec(b1, ' ');
    let b3 = insert_spec(b2, ' ');
    insert_ok(b) && insert_ok(b1) && insert_ok(b2) && insert_ok(b3)
}

pub open spec fn tab_spec(b: BufV) -> BufV {
    insert_spec(insert_spec(insert_spec(insert_spec(b, ' '), ' '), ' '), ' ')
}

/// An editor as values.
pub struct EdV {
    pub buf: BufV,
    pub mode: EditorMode,
    pub quit: bool,
    pub deploy: bool,
    pub message: Option<Seq<char>>,
    pub input: Seq<char>,
}

pub open spec fn opt_str(o: Option<String>) -> Option<Seq<char>> {
    match o {
        Some(s) => Some(s@),
        None => None,
    }
}

pub open spec fn ev(e: Editor) -> EdV {
    EdV {
        buf: bv(e.buffer),
        mode: e.mode,
        quit: e.should_quit,
        deploy: e.should_deploy,
        message: opt_str(e.message),
        input: e.save_as_input@,
    }
}

pub open spec fn has_control(m: Mods) -> bool {
    m == Mods::Control || m == (Mods::Combo { control: true })
}

pub open spec fn plain_or_shift(m: Mods) -> bool {
    m == Mods::Plain || m == Mods::Shift
}

pub open spec fn unsaved_warning() -> Seq<char> {
    "Unsaved changes! Press Ctrl+Q again to force quit, or Ctrl+S to save."@
}

pub open spec fn ask_filename() -> Seq<char> {
    "Enter filename:"@
}

/// A key press is one the editor can take without a step failing: the
/// buffer edit it leads to can run, and counters do not overflow.
pub open spec fn key_ok(e: EdV, k: KeyPress) -> bool {
    let b = e.buf;
    match e.mode {
        EditorMode::Normal => match k.key {
            Key::Char(c) => if k.mods == Mods::Control {
                true
            } else if plain_or_shift(k.mods) {
                insert_ok(b)
            } else {
                true
            },
            Key::Left => left_ok(b),
            Key::Up => up_ok(b),
            Key::Down => b.lines.len() > 0,
            Key::Enter => newline_ok(b),
            Key::Backspace => backspace_ok(b),
            Key::Delete => delete_ok(b),
            Key::Tab => tab_ok(b),
            _ => true,
        },
        EditorMode::Preview => k.key == Key::Down && !(has_control(k.mods) && k.key == Key::Esc) ==> b.scroll
            < usize::MAX,
        EditorMode::SaveAs => true,
    }
}

/// The editor after key `k`, and what the front-end must do.
pub open spec fn key_step(e: EdV, k: KeyPress) -> (EdV, EditorAction) {
    let b = e.buf;
    match e.mode {
        EditorMode::Normal => match k.key {
            Key::Char(c) => if k.mods == Mods::Control && c == 'q' {
                if b.dirty {
                    (EdV { message: Some(unsaved_warning()), ..e }, EditorAction::Nothing)
                } else {
                    (EdV { quit: true, ..e }, EditorAction::Nothing)
                }
            } else if k.mods == Mods::Control && c == 's' {
                if b.path is Some {
                    (e, EditorAction::Save)
                } else {
                    (
                        EdV { mode: EditorMode::SaveAs, input: Seq::empty(), message: Some(ask_filename()), ..e },
                        EditorAction::Nothing,
                    )
                }
            } else if k.mods == Mods::Control && c == 'd' {
                (EdV { deploy: true, ..e }, EditorAction::Nothing)
            } else if k.mods == Mods::Control && c == 'p' {
                (EdV { mode: EditorMode::Preview, ..e }, EditorAction::Nothing)
            } else if plain_or_shift(k.mods) {
                (EdV { buf: insert_spec(b, c), message: None, ..e }, EditorAction::Nothing)
            } else {
                (e, EditorAction::Nothing)
            },
            Key::Left => (EdV { buf: left_spec(b), ..e }, EditorAction::Nothing),
            Key::Right => (EdV { buf: right_spec(b), ..e }, EditorAction::Nothing),
            Key::Up => (EdV { buf: up_spec(b), ..e }, EditorAction::Nothing),
            Key::Down => (EdV { buf: down_spec(b), ..e }, EditorAction::Nothing),
            Key::Home => (EdV { buf: BufV { x: 0, ..b }, ..e }, EditorAction::Nothing),
            Key::End => (EdV { buf: end_spec(b), ..e }, EditorAction::Nothing),
            Key::Enter => (EdV { buf: newline_spec(b), message: None, ..e }, EditorAction::Nothing),
            Key::Backspace => (EdV { buf: backspace_spec(b), message: None, ..e }, EditorAction::Nothing),
            Key::Delete => (EdV { buf: delete_spec(b), message: None, ..e }, EditorAction::Nothing),
            Key::Tab => (EdV { buf: tab_spec(b), message: None, ..e }, EditorAction::Nothing),
            _ => (e, EditorAction::Nothing),
        },
        EditorMode::Preview => if (k.key == Key::Esc || k.key == Key::Char('p')) && has_control(k.mods) {
            (EdV { mode: EditorMode::Normal, ..e }, EditorAction::Nothing)
        } else if k.key == Key::Up {
            (
                EdV {
                    buf: BufV {
                        scroll: if b.scroll > 0 {
                            b.scroll - 1
                        } else {
                            b.scroll
                        },
                        ..b
                    },
                    ..e
                },
                EditorAction::Nothing,
            )
        } else if k.key == Key::Down {
            (EdV { buf: BufV { scroll: b.scroll + 1, ..b }, ..e }, EditorAction::Nothing)
        } else {
            (e, EditorAction::Nothing)
        },
        EditorMode::SaveAs => match k.key {
            Key::Enter => if e.input.len() > 0 {
                (EdV { buf: BufV { path: Some(pathbuf_of(e.input)), ..b }, ..e }, EditorAction::SaveAs)
            } else {
                (e, EditorAction::Nothing)
            },
            Key::Esc => (EdV { mode: EditorMode::Normal, message: None, ..e }, EditorAction::Nothing),
            Key::Char(c) => (EdV { input: e.input.push(c), ..e }, EditorAction::Nothing),
            Key::Backspace => (
                EdV {
                    input: if e.input.len() > 0 {
                        e.input.drop_last()
                    } else {
                        e.input
                    },
                    ..e
                },
                EditorAction::Nothing,
            ),
            _ => (e, EditorAction::Nothing),
        },
    }
}

proof fn lemma_bufv_eq(a: BufV, b: BufV)
    requires
        a.lines =~= b.lines,
        a.x == b.x,
        a.y == b.y,
        a.path == b.path,
        a.dirty == b.dirty,
        a.scroll == b.scroll,
    ensures
        a == b,
{
}

fn message_of(s: &str) -> (r: Option<String>)
    ensures
        r matches Some(m) && m@ == s@,
{
    let v = chars_of(s);
    Some(string_of(v.as_slice()))
}

impl Editor {
    pub fn new(buffer: TextBuffer) -> (e: Self)
        ensures
            e.buffer == buffer,
            e.mode == EditorMode::Normal,
            !e.should_quit,
            !e.should_deploy,
            e.message is None,
            e.save_as_input@ == Seq::<char>::empty(),
    {
        Editor {
            buffer,
            mode: EditorMode::Normal,
            should_quit: false,
            should_deploy: false,
            message: None,
            save_as_input: String::new(),
        }
    }

    /// `key_ok` for this editor and `key`, computed.
    pub fn can_take(&self, k: KeyPress) -> (b: bool)
        ensures
            b == key_ok(ev(*self), k),
    {
        let b = &self.buffer;
        match self.mode {
            EditorMode::Normal => match k.key {
                Key::Char(_) => {
                    if k.mods == Mods::Control {
                        true
                    } else if k.mods == Mods::Plain || k.mods == Mods::Shift {
                        insert_is_ok(b)
                    } else {
                        true
                    }
                },
                Key::Left => !(b.cursor_x == 0 && b.cursor_y > 0) || b.cursor_y - 1 < b.lines.len(),
                Key::Up => !(b.cursor_y > 0) || b.cursor_y - 1 < b.lines.len(),
                Key::Down => b.lines.len() > 0,
                Key::Enter => newline_is_ok(b),
                Key::Backspace => backspace_is_ok(b),
                Key::Delete => delete_is_ok(b),
                Key::Tab => tab_is_ok(b),
                _ => true,
            },
            EditorMode::Preview => {
                if k.key == Key::Down {
                    b.scroll_offset < usize::MAX
                } else {
                    true
                }
            },
            EditorMode::SaveAs => true,
        }
    }

    /// Take one key press.
    pub fn handle_key(&mut self, k: KeyPress) -> (a: EditorAction)
        requires
            key_ok(ev(*old(self)), k),
        ensures
            (ev(*final(self)), a) == key_step(ev(*old(self)), k),
    {
        let ghost e0 = ev(*self);
        match self.mode {
            EditorMode::Normal => self.handle_normal(k),
            EditorMode::Preview => {
                if (k.key == Key::Esc || k.key == Key::Char('p')) && (k.mods == Mods::Control || k.mods == (
                Mods::Combo { control: true })) {
                    self.mode = EditorMode::Normal;
                } else if k.key == Key::Up {
                    if self.buffer.scroll_offset > 0 {
                        self.buffer.scroll_offset = self.buffer.scroll_offset - 1;
                    }
                } else if k.key == Key::Down {
                    self.buffer.scroll_offset = self.buffer.scroll_offset + 1;
                }
                proof {
                    lemma_bufv_eq(bv(self.buffer), key_step(e0, k).0.buf);
                }
                EditorAction::Nothing
            },
            EditorMode::SaveAs => self.handle_save_as(k),
        }
    }

    fn handle_normal(&mut self, k: KeyPress) -> (a: EditorAction)
        requires
            old(self).mode == EditorMode::Normal,
            key_ok(ev(*old(self)), k),
        ensures
            (ev(*final(self)), a) == key_step(ev(*old(self)), k),
    {
        let ghost e0 = ev(*self);
        let ghost b0 = bv(self.buffer);
        match k.key {
            Key::Char(c) => {
                if k.mods == Mods::Control && c == 'q' {
                    if self.buffer.dirty {
                        self.message = message_of(
                            "Unsaved changes! Press Ctrl+Q again to force quit, or Ctrl+S to save.",
                        );
                    } else {
                        self.should_quit = true;
                    }
                } else if k.mods == Mods::Control && c == 's' {
                    if self.buffer.file_path.is_some() {
                        return EditorAction::Save;
                    } else {
                        self.mode = EditorMode::SaveAs;
                        self.save_as_input = String::new();
                        self.message = message_of("Enter filename:");
                        assert(self.save_as_input@ =~= Seq::<char>::empty());
                    }
                } else if k.mods == Mods::Control && c == 'd' {
                    self.should_deploy = true;
                } else if k.mods == Mods::Control && c == 'p' {
                    self.mode = EditorMode::Preview;
                } else if k.mods == Mods::Plain || k.mods == Mods::Shift {
                    self.buffer.insert_char(c);
                    self.message = None;
                    proof {
                        lemma_bufv_eq(bv(self.buffer), insert_spec(b0, c));
                    }
                }
            },
            Key::Left => {
                self.buffer.move_cursor_left();
                proof {
                    lemma_bufv_eq(bv(self.buffer), left_spec(b0));
                }
            },
            Key::Right => {
                self.buffer.move_cursor_right();
                proof {
                    lemma_bufv_eq(bv(self.buffer), right_spec(b0));
                }
            },
            Key::Up => {
                self.buffer.move_cursor_up();
                proof {
                    lemma_bufv_eq(bv(self.buffer), up_spec(b0));
                }
            },
            Key::Down => {
                self.buffer.move_cursor_down();
                proof {
                    lemma_bufv_eq(bv(self.buffer), down_spec(b0));
                }
            },
            Key::Home => {
                self.buffer.move_to_line_start();
                proof {
                    lemma_bufv_eq(bv(self.buffer), BufV { x: 0, ..b0 });
                }
            },
            Key::End => {
                self.buffer.move_to_line_end();
                proof {
                    lemma_bufv_eq(bv(self.buffer), end_spec(b0));
                }
            },
            Key::Enter => {
                self.buffer.insert_newline();
                self.message = None;
                proof {
                    lemma_bufv_eq(bv(self.buffer), newline_spec(b0));
                }
            },
            Key::Backspace => {
                self.buffer.backspace();
                self.message = None;
                proof {
                    lemma_bufv_eq(bv(self.buffer), backspace_spec(b0));
                }
            },
            Key::Delete => {
                self.buffer.delete();
                self.message = None;
                proof {
                    lemma_bufv_eq(bv(self.buffer), delete_spec(b0));
                }
            },
            Key::Tab => {
                let ghost b1 = insert_spec(b0, ' ');
                let ghost b2 = insert_spec(b1, ' ');
                let ghost b3 = insert_spec(b2, ' ');
                self.buffer.insert_char(' ');
                proof {
                    lemma_bufv_eq(bv(self.buffer), b1);
                }
                self.buffer.insert_char(' ');
                proof {
                    lemma_bufv_eq(bv(self.buffer), b2);
                }
                self.buffer.insert_char(' ');
                proof {
                    lemma_bufv_eq(bv(self.buffer), b3);
                }
                self.buffer.insert_char(' ');
                proof {
                    lemma_bufv_eq(bv(self.buffer), tab_spec(b0));
                }
                self.message = None;
            },
            _ => {},
        }
        EditorAction::Nothing
    }

    fn handle_save_as(&mut self, k: KeyPress) -> (a: EditorAction)
        requires
            old(self).mode == EditorMode::SaveAs,
        ensures
            (ev(*final(self)), a) == key_step(ev(*old(self)), k),
    {
        let ghost b0 = bv(self.buffer);
        match k.key {
            Key::Enter => {
                if self.save_as_input.as_str().unicode_len() > 0 {
                    let path = path_from(self.save_as_input.as_str());
                    self.buffer.save_as(path);
                    proof {
                        lemma_bufv_eq(bv(self.buffer), BufV { path: Some(pathbuf_of(self.save_as_input@)), ..b0 });
                    }
                    return EditorAction::SaveAs;
                }
            },
            Key::Esc => {
                self.mode = EditorMode::Normal;
                self.message = None;
            },
            Key::Char(c) => {
                let mut v = chars_of(self.save_as_input.as_str());
                v.push(c);
                self.save_as_input = string_of(v.as_slice());
            },
            Key::Backspace => {
                let mut v = chars_of(self.save_as_input.as_str());
                if v.len() > 0 {
                    v.pop();
                }
                self.save_as_input = string_of(v.as_slice());
                assert(v@ =~= if ev(*old(self)).input.len() > 0 {
                    ev(*old(self)).input.drop_last()
                } else {
                    ev(*old(self)).input
                });
            },
            _ => {},
        }
        EditorAction::Nothing
    }

    /// The front-end wrote the buffer after `Save`: `error` is why it could
    /// not, if it could not.
    pub fn save_done(&mut self, error: Option<String>)
        ensures
            match error {
                None => final(self).message matches Some(m) && m@ == "File saved successfully."@
                    && !final(self).buffer.dirty,
                Some(e) => final(self).message matches Some(m) && m@ == "Error saving file: "@ + e@
                    && final(self).buffer.dirty == old(self).buffer.dirty,
            },
            final(self).mode == old(self).mode,
            final(self).buffer.lines == old(self).buffer.lines,
            final(self).buffer.file_path == old(self).buffer.file_path,
    {
        match error {
            None => {
                self.buffer.mark_saved();
                self.message = message_of("File saved successfully.");
            },
            Some(e) => {
                let mut v = chars_of("Error saving file: ");
                let ev = chars_of(e.as_str());
                append_chars(&mut v, &ev);
                self.message = Some(string_of(v.as_slice()));
            },
        }
    }

    /// The front-end wrote the buffer after `SaveAs`: on success the editor
    /// returns to normal mode; `error` is why it could not, if it could not.
    pub fn save_as_done(&mut self, error: Option<String>)
        ensures
            match error {
                None => final(self).message matches Some(m) && m@ == "File saved as: "@ + old(self).save_as_input@
                    && final(self).mode == EditorMode::Normal && !final(self).buffer.dirty,
                Some(e) => final(self).message matches Some(m) && m@ == "Error saving file: "@ + e@
                    && final(self).mode == old(self).mode && final(self).buffer.dirty
                    == old(self).buffer.dirty,
            },
            final(self).buffer.lines == old(self).buffer.lines,
            final(self).buffer.file_path == old(self).buffer.file_path,
    {
        match error {
            None => {
                self.buffer.mark_saved();
                let mut v = chars_of("File saved as: ");
                let iv = chars_of(self.save_as_input.as_str());
                append_chars(&mut v, &iv);
                self.message = Some(string_of(v.as_slice()));
                self.mode = EditorMode::Normal;
            },
            Some(e) => {
                let mut v = chars_of("Error saving file: ");
                let ev = chars_of(e.as_str());
                append_chars(&mut v, &ev);
                self.message = Some(string_of(v.as_slice()));
            },
        }
    }

    /// Keep the cursor's line within the `visible_height` lines shown.
    pub fn adjust_scroll(&mut self, visible_height: usize)
        requires
            old(self).buffer.scroll_offset + visible_height <= usize::MAX,
            visible_height > 0 || old(self).buffer.cursor_y < old(self).buffer.scroll_offset,
        ensures
            ({
                let y = old(self).buffer.cursor_y as int;
                let s = old(self).buffer.scroll_offset as int;
                final(self).buffer.scroll_offset == if y < s {
                    y
                } else if y >= s + visible_height {
                    if y >= visible_height - 1 {
                        y - (visible_height - 1)
                    } else {
                        0
                    }
                } else {
                    s
                }
            }),
            final(self).buffer.lines == old(self).buffer.lines,
            final(self).buffer.cursor_x == old(self).buffer.cursor_x,
            final(self).buffer.cursor_y == old(self).buffer.cursor_y,
    {
        if self.buffer.cursor_y < self.buffer.scroll_offset {
            self.buffer.scroll_offset = self.buffer.cursor_y;
        } else if self.buffer.cursor_y >= self.buffer.scroll_offset + visible_height {
            self.buffer.scroll_offset = self.buffer.cursor_y.saturating_sub(visible_height - 1);
        }
    }

    /// The status line: the message when there is one, else
    /// `name[+] | line:column | mode`.
    pub fn status_text(&self) -> (r: String)
        requires
            self.buffer.cursor_y < usize::MAX,
            self.buffer.cursor_x < usize::MAX,
        ensures
            r@ == match self.message {
                Some(m) => m@,
                None => status_spec(*self),
            },
    {
        match &self.message {
            Some(m) => {
                let v = chars_of(m.as_str());
                string_of(v.as_slice())
            },
            None => {
                let name = self.buffer.filename();
                let mut v = chars_of(name.as_str());
                if self.buffer.dirty {
                    v.push(' ');
                    v.push('[');
                    v.push('+');
                    v.push(']');
                }
                v.push(' ');
                v.push('|');
                v.push(' ');
                let y = decimal((self.buffer.cursor_y + 1) as u64);
                append_chars(&mut v, &y);
                v.push(':');
                let x = decimal((self.buffer.cursor_x + 1) as u64);
                append_chars(&mut v, &x);
                v.push(' ');
                v.push('|');
                v.push(' ');
                let mode = match self.mode {
                    EditorMode::Normal => chars_of("NORMAL"),
                    EditorMode::Preview => chars_of("PREVIEW"),
                    EditorMode::SaveAs => chars_of(self.save_as_input.as_str()),
                };
                append_chars(&mut v, &mode);
                assert(v@ =~= status_spec(*self));
                string_of(v.as_slice())
            },
        }
    }
}

/// The status line when there is no message.
pub open spec fn status_spec(e: Editor) -> Seq<char> {
    let name = match e.buffer.file_path {
        Some(p) => match file_name_of(p) {
            Some(n) => n,
            None => no_name(),
        },
        None => no_name(),
    };
    let dirty: Seq<char> = if e.buffer.dirty {
        seq![' ', '[', '+', ']']
    } else {
        Seq::empty()
    };
    let mode = match e.mode {
        EditorMode::Normal => "NORMAL"@,
        EditorMode::Preview => "PREVIEW"@,
        EditorMode::SaveAs => e.save_as_input@,
    };
    name + dirty + seq![' ', '|', ' '] + dec_of((e.buffer.cursor_y + 1) as nat) + seq![':'] + dec_of(
        (e.buffer.cursor_x + 1) as nat,
    ) + seq![' ', '|', ' '] + mode
}

/// Typing a space keeps the cursor on a boundary, one byte further, in a
/// line one byte longer.
proof fn lemma_insert_space(b: BufV)
    requires
        insert_ok(b),
    ensures
        ({
            let b1 = insert_spec(b, ' ');
            let line = line_or_empty(b.lines, b.y);
            let line1 = line_or_empty(b1.lines, b1.y);
            &&& b1.y == b.y
            &&& 0 <= b1.y < b1.lines.len()
            &&& blen(line1) == blen(line) + 1
            &&& is_boundary(line1, min(b1.x, blen(line1) as int))
        }),
{
    let ls = if b.y >= b.lines.len() {
        b.lines.push(Seq::empty())
    } else {
        b.lines
    };
    let line = ls[b.y];
    assert(line == line_or_empty(b.lines, b.y));
    let x = min(b.x, blen(line) as int);
    let k = char_at_byte(line, x);
    assert(0 <= k <= line.len() && blen(line.take(k)) == x);
    let line1 = line.insert(k, ' ');
    assert(line1 =~= line.take(k) + seq![' '] + line.skip(k));
    assert(line =~= line.take(k) + line.skip(k));
    crate::tui::buffer::lemma_encode_concat(line.take(k), line.skip(k));
    crate::tui::buffer::lemma_encode_concat(line.take(k) + seq![' '], line.skip(k));
    crate::tui::buffer::lemma_encode_concat(line.take(k), seq![' ']);
    crate::tui::buffer::lemma_width(' ');
    assert(line1.take(k + 1) =~= line.take(k) + seq![' ']);
    assert(blen(line1.take(k + 1)) == x + 1);
    assert(0 <= k + 1 <= line1.len());
}

fn insert_is_ok(b: &TextBuffer) -> (r: bool)
    ensures
        r == insert_ok(bv(*b)),
{
    if b.cursor_y > b.lines.len() {
        return false;
    }
    let (line, total) = if b.cursor_y < b.lines.len() {
        (chars_of(b.lines[b.cursor_y].as_str()), crate::tui::buffer::byte_len_of(&b.lines[b.cursor_y]))
    } else {
        let e: Vec<char> = Vec::new();
        proof {
            assert(e@ =~= Seq::<char>::empty());
            assert(vstd::utf8::encode_utf8(Seq::<char>::empty()) =~= Seq::<u8>::empty());
        }
        (e, 0)
    };
    if total == usize::MAX {
        return false;
    }
    let x = if b.cursor_x < total {
        b.cursor_x
    } else {
        total
    };
    crate::tui::buffer::boundary_index(&line, total, x).is_some()
}

fn newline_is_ok(b: &TextBuffer) -> (r: bool)
    ensures
        r == newline_ok(bv(*b)),
{
    if b.cursor_y >= b.lines.len() {
        return true;
    }
    let line = chars_of(b.lines[b.cursor_y].as_str());
    let total = crate::tui::buffer::byte_len_of(&b.lines[b.cursor_y]);
    let x = if b.cursor_x < total {
        b.cursor_x
    } else {
        total
    };
    crate::tui::buffer::boundary_index(&line, total, x).is_some()
}

fn backspace_is_ok(b: &TextBuffer) -> (r: bool)
    ensures
        r == backspace_ok(bv(*b)),
{
    if !(b.cursor_y < b.lines.len() || (b.cursor_x == 0 && b.cursor_y == 0)) {
        return false;
    }
    if b.cursor_x > 0 {
        let line = chars_of(b.lines[b.cursor_y].as_str());
        let total = crate::tui::buffer::byte_len_of(&b.lines[b.cursor_y]);
        if b.cursor_x <= total {
            return crate::tui::buffer::boundary_index(&line, total, b.cursor_x - 1).is_some();
        }
    }
    true
}

fn delete_is_ok(b: &TextBuffer) -> (r: bool)
    ensures
        r == delete_ok(bv(*b)),
{
    if b.cursor_y < b.lines.len() {
        let line = chars_of(b.lines[b.cursor_y].as_str());
        let total = crate::tui::buffer::byte_len_of(&b.lines[b.cursor_y]);
        if b.cursor_x < total {
            return crate::tui::buffer::boundary_index(&line, total, b.cursor_x).is_some();
        }
    }
    true
}

/// Four spaces typed one after another: when the first can go in, each
/// next one starts right after the last, on a character boundary.
fn tab_is_ok(b: &TextBuffer) -> (r: bool)
    ensures
        r == tab_ok(bv(*b)),
{
    if !insert_is_ok(b) {
        return false;
    }
    let ghost b0 = bv(*b);
    let y = b.cursor_y;
    let (line, total) = if y < b.lines.len() {
        (chars_of(b.lines[y].as_str()), crate::tui::buffer::byte_len_of(&b.lines[y]))
    } else {
        let e: Vec<char> = Vec::new();
        proof {
            assert(e@ =~= Seq::<char>::empty());
            assert(vstd::utf8::encode_utf8(Seq::<char>::empty()) =~= Seq::<u8>::empty());
        }
        (e, 0)
    };
    proof {
        lemma_insert_space(b0);
        let b1 = insert_spec(b0, ' ');
        if insert_ok(b1) {
            lemma_insert_space(b1);
            let b2 = insert_spec(b1, ' ');
            if insert_ok(b2) {
                lemma_insert_space(b2);
            }
        }
    }
    total < usize::MAX - 3
}

/// Quitting never drops unsaved work: a key that makes the editor quit
/// finds it quitting already or with nothing unsaved.
pub proof fn lemma_quit_only_when_saved(e: EdV, k: KeyPress)
    ensures
        key_step(e, k).0.quit ==> e.quit || !e.buf.dirty,
{
}

/// Scrolling the preview leaves the text and its cursor alone.
pub proof fn lemma_preview_keeps_text(e: EdV, k: KeyPress)
    requires
        e.mode == EditorMode::Preview,
    ensures
        key_step(e, k).0.buf.lines == e.buf.lines,
        key_step(e, k).0.buf.x == e.buf.x,
        key_step(e, k).0.buf.y == e.buf.y,
        key_step(e, k).1 == EditorAction::Nothing,
{
}

} // verus!
