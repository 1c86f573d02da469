//! The editing session the editor view drives: each action it asks for,
//! applied to the document, with the armed revert and Hemingway mode.

use vstd::prelude::*;
use crate::document::{
    Document, DocV, insert_str_spec, backspace_spec, delete_forward_spec, move_spec, move_left_target,
    move_right_target, move_up_target, move_down_target, goal_col, line_end_target, clamp, with_history,
    doc_undo_spec, doc_redo_spec,
};
use crate::history::commit_spec;
use crate::cursor::{selection_of, prev_word_spec, next_word_spec};
use crate::buffer::{breaks_before, line_start};
use crate::text::chars_of;
use crate::desktop::word_range_at;
use crate::desktop::typing::{Revert, revert_view, typed_spec, backspace_revert_spec, insert_with_typography, backspace_with_revert};

verus! {

/// A caret movement the editor view asks for.
#[derive(Debug, Clone, Copy, PartialEq, Eq, Structural)]
pub enum Motion {
    Left,
    Right,
    Up,
    Down,
    WordLeft,
    WordRight,
    Home,
    End,
    DocStart,
    DocEnd,
}

/// What the editor view asks the app to do.
#[derive(Debug, Clone)]
pub enum Action {
    Insert(String),
    Enter,
    Backspace,
    Delete,
    DeleteWordBack,
    DeleteWordForward,
    DeleteToLineStart,
    DeleteToLineEnd,
    Move(Motion, bool),
    /// Up/Down resolved to a char position by the view's wrap layout, so
    /// navigation follows visual (soft-wrapped) rows, not buffer lines.
    VerticalMove { target: usize, extend: bool },
    SelectAll,
    Click { position: usize, extend: bool },
    DragTo { position: usize },
    SelectWord { position: usize },
    Cut,
    Paste(String),
    Undo,
    Redo,
    /// An unclaimed Cmd/Ctrl+<char> shortcut, for the app's keymap.
    Command { key: String, shift: bool },
}

pub enum ActionV {
    Insert(Seq<char>),
    Enter,
    Backspace,
    Delete,
    DeleteWordBack,
    DeleteWordForward,
    DeleteToLineStart,
    DeleteToLineEnd,
    Move(Motion, bool),
    VerticalMove { target: usize, extend: bool },
    SelectAll,
    Click { position: usize, extend: bool },
    DragTo { position: usize },
    SelectWord { position: usize },
    Cut,
    Paste(Seq<char>),
    Undo,
    Redo,
    Command { key: Seq<char>, shift: bool },
}

impl View for Action {
    type V = ActionV;

    open spec fn view(&self) -> ActionV {
        match self {
            Action::Insert(s) => ActionV::Insert(s@),
            Action::Enter => ActionV::Enter,
            Action::Backspace => ActionV::Backspace,
            Action::Delete => ActionV::Delete,
            Action::DeleteWordBack => ActionV::DeleteWordBack,
            Action::DeleteWordForward => ActionV::DeleteWordForward,
            Action::DeleteToLineStart => ActionV::DeleteToLineStart,
            Action::DeleteToLineEnd => ActionV::DeleteToLineEnd,
            Action::Move(m, e) => ActionV::Move(*m, *e),
            Action::VerticalMove { target, extend } => ActionV::VerticalMove { target: *target, extend: *extend },
            Action::SelectAll => ActionV::SelectAll,
            Action::Click { position, extend } => ActionV::Click { position: *position, extend: *extend },
            Action::DragTo { position } => ActionV::DragTo { position: *position },
            Action::SelectWord { position } => ActionV::SelectWord { position: *position },
            Action::Cut => ActionV::Cut,
            Action::Paste(s) => ActionV::Paste(s@),
            Action::Undo => ActionV::Undo,
            Action::Redo => ActionV::Redo,
            Action::Command { key, shift } => ActionV::Command { key: key@, shift: *shift },
        }
    }
}

/// What the app does after an action: nothing more, note an edit (redraw,
/// autosave timer, chrome), or run a keymap command.
#[derive(Debug)]
pub enum Handled {
    Done,
    Edited,
    Command { key: String, shift: bool },
}

pub enum HandledV {
    Done,
    Edited,
    Command { key: Seq<char>, shift: bool },
}

impl View for Handled {
    type V = HandledV;

    open spec fn view(&self) -> HandledV {
        match self {
            Handled::Done => HandledV::Done,
            Handled::Edited => HandledV::Edited,
            Handled::Command { key, shift } => HandledV::Command { key: key@, shift: *shift },
        }
    }
}

/// The document as the editor view edits it, with the armed revert and
/// whether Hemingway mode (forward only) is on.
pub struct EditSession {
    pub doc: Document,
    pub pending_revert: Option<Revert>,
    pub hemingway: bool,
}

pub struct SessionV {
    pub doc: DocV,
    pub pending: Option<(nat, Seq<char>)>,
    pub hemingway: bool,
}

impl View for EditSession {
    type V = SessionV;

    open spec fn view(&self) -> SessionV {
        SessionV { doc: self.doc@, pending: revert_view(self.pending_revert), hemingway: self.hemingway }
    }
}

/// The caret placed at `pos` (clamped to the text).
pub open spec fn place_spec(d: DocV, pos: int, extend: bool) -> DocV {
    move_spec(d, clamp(pos, d.text.len() as int) as nat, extend, None)
}

/// A movement of the caret.
pub open spec fn motion_spec(d: DocV, m: Motion, extend: bool) -> DocV {
    let pos = d.cursor.pos as int;
    match m {
        Motion::Left => move_spec(d, move_left_target(d, extend), extend, None),
        Motion::Right => move_spec(d, move_right_target(d, extend), extend, None),
        Motion::Up => move_spec(d, move_up_target(d), extend, Some(goal_col(d) as usize)),
        Motion::Down => move_spec(d, move_down_target(d), extend, Some(goal_col(d) as usize)),
        Motion::WordLeft => move_spec(d, prev_word_spec(d.text, pos) as nat, extend, None),
        Motion::WordRight => move_spec(d, next_word_spec(d.text, pos) as nat, extend, None),
        Motion::Home => move_spec(d, line_start(d.text, breaks_before(d.text, pos)) as nat, extend, None),
        Motion::End => move_spec(d, line_end_target(d), extend, None),
        Motion::DocStart => place_spec(d, 0, extend),
        Motion::DocEnd => place_spec(d, d.text.len() as int, extend),
    }
}

/// Deleting what `m` spans from the caret: the selection if there is one,
/// else the range the movement selects.
pub open spec fn delete_motion_spec(d: DocV, m: Motion) -> DocV {
    backspace_spec(if selection_of(d.cursor) is None { motion_spec(d, m, true) } else { d })
}

/// The word range a double-click at `position` selects.
pub open spec fn word_range_spec(s: Seq<char>, position: int) -> (int, int) {
    let p = if position <= s.len() { position } else { s.len() as int };
    let start = prev_word_spec(s, p);
    let end = next_word_spec(s, start);
    (start, if end >= position { end } else { position })
}

/// The actions Hemingway mode refuses.
pub open spec fn deletes(a: ActionV) -> bool {
    match a {
        ActionV::Backspace | ActionV::Delete | ActionV::DeleteWordBack | ActionV::DeleteWordForward
        | ActionV::DeleteToLineStart | ActionV::DeleteToLineEnd | ActionV::Cut => true,
        _ => false,
    }
}

/// The session after an action, and what the app does next.
pub open spec fn session_step(s: SessionV, a: ActionV) -> (SessionV, HandledV) {
    let d = s.doc;
    if s.hemingway && deletes(a) {
        (s, HandledV::Done)
    } else {
        match a {
            ActionV::Insert(t) => {
                let (d1, p) = typed_spec(d, t);
                (SessionV { doc: d1, pending: p, ..s }, HandledV::Edited)
            },
            ActionV::Enter => (SessionV { doc: insert_str_spec(d, seq!['\n']), pending: None, ..s }, HandledV::Edited),
            ActionV::Backspace => (
                SessionV { doc: backspace_revert_spec(d, s.pending), pending: None, ..s },
                HandledV::Edited,
            ),
            ActionV::Delete => (SessionV { doc: delete_forward_spec(d), pending: None, ..s }, HandledV::Edited),
            ActionV::DeleteWordBack => (
                SessionV { doc: delete_motion_spec(d, Motion::WordLeft), pending: None, ..s },
                HandledV::Edited,
            ),
            ActionV::DeleteWordForward => (
                SessionV { doc: delete_motion_spec(d, Motion::WordRight), pending: None, ..s },
                HandledV::Edited,
            ),
            ActionV::DeleteToLineStart => (
                SessionV { doc: delete_motion_spec(d, Motion::Home), pending: None, ..s },
                HandledV::Edited,
            ),
            ActionV::DeleteToLineEnd => (
                SessionV { doc: delete_motion_spec(d, Motion::End), pending: None, ..s },
                HandledV::Edited,
            ),
            ActionV::Move(m, extend) => (SessionV { doc: motion_spec(d, m, extend), pending: None, ..s }, HandledV::Done),
            ActionV::VerticalMove { target, extend } => (
                SessionV { doc: place_spec(d, target as int, extend), pending: None, ..s },
                HandledV::Done,
            ),
            ActionV::SelectAll => (
                SessionV {
                    doc: DocV {
                        history: commit_spec(d.history),
                        cursor: crate::cursor::Cursor { pos: d.text.len() as usize, anchor: Some(0), sticky_col: None },
                        ..d
                    },
                    ..s
                },
                HandledV::Done,
            ),
            ActionV::Click { position, extend } => (
                SessionV { doc: place_spec(d, position as int, extend), pending: None, ..s },
                HandledV::Done,
            ),
            ActionV::DragTo { position } => (SessionV { doc: place_spec(d, position as int, true), ..s }, HandledV::Done),
            ActionV::SelectWord { position } => {
                let (st, en) = word_range_spec(d.text, position as int);
                (SessionV { doc: place_spec(place_spec(d, st, false), en, true), ..s }, HandledV::Done)
            },
            ActionV::Cut => if selection_of(d.cursor) is Some {
                (SessionV { doc: backspace_spec(d), ..s }, HandledV::Edited)
            } else {
                (s, HandledV::Done)
            },
            ActionV::Paste(t) => if t.len() > 0 {
                (SessionV { doc: insert_str_spec(d, t), pending: None, ..s }, HandledV::Edited)
            } else {
                (s, HandledV::Done)
            },
            ActionV::Undo => match doc_undo_spec(d) {
                Some(d1) => (SessionV { doc: d1, pending: None, ..s }, HandledV::Edited),
                None => (SessionV { doc: with_history(d, commit_spec(d.history)), ..s }, HandledV::Done),
            },
            ActionV::Redo => match doc_redo_spec(d) {
                Some(d1) => (SessionV { doc: d1, pending: None, ..s }, HandledV::Edited),
                None => (SessionV { doc: with_history(d, commit_spec(d.history)), ..s }, HandledV::Done),
            },
            ActionV::Command { key, shift } => (s, HandledV::Command { key, shift }),
        }
    }
}

impl EditSession {
    /// A session over `doc`, nothing armed, Hemingway mode off.
    pub fn new(doc: Document) -> (s: Self)
        ensures
            s@ == (SessionV { doc: doc@, pending: None, hemingway: false }),
            s.doc.path_value() == doc.path_value(),
    {
        EditSession { doc, pending_revert: None, hemingway: false }
    }

    fn delete_by(&mut self, m: Motion)
        requires
            old(self).doc.wf(),
            m == Motion::WordLeft || m == Motion::WordRight || m == Motion::Home || m == Motion::End,
        ensures
            final(self).doc.wf(),
            final(self)@ == (SessionV { doc: delete_motion_spec(old(self)@.doc, m), pending: None, ..old(self)@ }),
            final(self).doc.path_value() == old(self).doc.path_value(),
    {
        self.pending_revert = None;
        if self.doc.selection().is_none() {
            match m {
                Motion::WordLeft => self.doc.move_word_left(true),
                Motion::WordRight => self.doc.move_word_right(true),
                Motion::Home => self.doc.move_line_start(true),
                _ => self.doc.move_line_end(true),
            }
        }
        self.doc.backspace();
    }

    /// Apply what the editor view asks for. In Hemingway mode deletions are
    /// refused (forward only); a typed char may get its smart punctuation
    /// and arm a revert, which any other edit or movement disarms.
    pub fn on_editor_action(&mut self, action: Action) -> (h: Handled)
        requires
            old(self).doc.wf(),
        ensures
            final(self).doc.wf(),
            (final(self)@, h@) == session_step(old(self)@, action@),
            final(self).doc.path_value() == old(self).doc.path_value(),
    {
        let refused = match &action {
            Action::Backspace | Action::Delete | Action::DeleteWordBack | Action::DeleteWordForward
            | Action::DeleteToLineStart | Action::DeleteToLineEnd | Action::Cut => self.hemingway,
            _ => false,
        };
        if refused {
            return Handled::Done;
        }
        match action {
            Action::Insert(s) => {
                self.pending_revert = insert_with_typography(&mut self.doc, s.as_str());
                Handled::Edited
            },
            Action::Enter => {
                self.doc.insert_newline();
                self.pending_revert = None;
                Handled::Edited
            },
            Action::Backspace => {
                let pending = self.pending_revert.take();
                backspace_with_revert(&mut self.doc, pending);
                Handled::Edited
            },
            Action::Delete => {
                self.doc.delete_forward();
                self.pending_revert = None;
                Handled::Edited
            },
            Action::DeleteWordBack => {
                self.delete_by(Motion::WordLeft);
                Handled::Edited
            },
            Action::DeleteWordForward => {
                self.delete_by(Motion::WordRight);
                Handled::Edited
            },
            Action::DeleteToLineStart => {
                self.delete_by(Motion::Home);
                Handled::Edited
            },
            Action::DeleteToLineEnd => {
                self.delete_by(Motion::End);
                Handled::Edited
            },
            Action::Move(motion, extend) => {
                self.pending_revert = None;
                match motion {
                    Motion::Left => self.doc.move_left(extend),
                    Motion::Right => self.doc.move_right(extend),
                    Motion::Up => self.doc.move_up(extend),
                    Motion::Down => self.doc.move_down(extend),
                    Motion::WordLeft => self.doc.move_word_left(extend),
                    Motion::WordRight => self.doc.move_word_right(extend),
                    Motion::Home => self.doc.move_line_start(extend),
                    Motion::End => self.doc.move_line_end(extend),
                    Motion::DocStart => self.doc.set_cursor_pos(0, extend),
                    Motion::DocEnd => {
                        let end = self.doc.buffer().len_chars();
                        self.doc.set_cursor_pos(end, extend);
                    },
                }
                Handled::Done
            },
            Action::VerticalMove { target, extend } => {
                self.pending_revert = None;
                self.doc.set_cursor_pos(target, extend);
                Handled::Done
            },
            Action::SelectAll => {
                self.doc.select_all();
                Handled::Done
            },
            Action::Click { position, extend } => {
                self.pending_revert = None;
                self.doc.set_cursor_pos(position, extend);
                Handled::Done
            },
            Action::DragTo { position } => {
                self.doc.set_cursor_pos(position, true);
                Handled::Done
            },
            Action::SelectWord { position } => {
                let range = word_range_at(self.doc.buffer(), position);
                self.doc.set_cursor_pos(range.start, false);
                self.doc.set_cursor_pos(range.end, true);
                Handled::Done
            },
            Action::Cut => {
                if self.doc.selection().is_some() {
                    self.doc.backspace();
                    Handled::Edited
                } else {
                    Handled::Done
                }
            },
            Action::Paste(s) => {
                if chars_of(s.as_str()).len() > 0 {
                    self.doc.insert_str(s.as_str());
                    self.pending_revert = None;
                    Handled::Edited
                } else {
                    Handled::Done
                }
            },
            Action::Undo => {
                if self.doc.undo() {
                    self.pending_revert = None;
                    Handled::Edited
                } else {
                    Handled::Done
                }
            },
            Action::Redo => {
                if self.doc.redo() {
                    self.pending_revert = None;
                    Handled::Edited
                } else {
                    Handled::Done
                }
            },
            Action::Command { key, shift } => Handled::Command { key, shift },
        }
    }
}

/// Hemingway mode is forward only: no deleting action touches the document.
pub proof fn lemma_hemingway_forward_only(s: SessionV, a: ActionV)
    requires
        s.hemingway,
        deletes(a),
    ensures
        session_step(s, a).0 == s,
{
}

} // verus!
