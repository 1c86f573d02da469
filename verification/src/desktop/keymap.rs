//! The keymaps: the app's Cmd/Ctrl shortcuts, and how the editor view
//! turns a key press into an action.

use vstd::prelude::*;
use crate::text::{chars_of, str_eq};
use crate::desktop::session::{Action, ActionV, Motion};

verus! {

/// What a Cmd/Ctrl shortcut the editor view leaves unclaimed asks the app
/// to do.
#[derive(Debug, Clone, Copy, PartialEq, Eq, Structural)]
pub enum Command {
    /// Shift+M: browse the drafts.
    Drafts,
    /// M: mark a draft.
    Mark,
    Save,
    Find,
    Rename,
    TogglePreview,
    ToggleTheme,
    Publish,
    Typewriter,
    FocusDim,
    Hemingway,
    Zen,
    Goal,
    /// Shift+I: import a revision to review.
    Import,
}

/// The app's keymap.
pub open spec fn command_spec(key: Seq<char>, shift: bool) -> Option<Command> {
    if key == "m"@ {
        Some(if shift { Command::Drafts } else { Command::Mark })
    } else if key == "s"@ {
        Some(Command::Save)
    } else if key == "f"@ {
        Some(Command::Find)
    } else if key == "r"@ {
        Some(Command::Rename)
    } else if key == "p"@ {
        Some(Command::TogglePreview)
    } else if key == "t"@ {
        Some(Command::ToggleTheme)
    } else if key == "d"@ {
        Some(Command::Publish)
    } else if key == "y"@ {
        Some(Command::Typewriter)
    } else if key == "g"@ {
        Some(Command::FocusDim)
    } else if key == "e"@ {
        Some(Command::Hemingway)
    } else if key == "k"@ {
        Some(Command::Zen)
    } else if key == "l"@ {
        Some(Command::Goal)
    } else if key == "i"@ && shift {
        Some(Command::Import)
    } else {
        None
    }
}

/// The command for an unclaimed shortcut, if the keymap has one.
pub fn command_for(key: &str, shift: bool) -> (r: Option<Command>)
    ensures
        r == command_spec(key@, shift),
{
    if str_eq(key, "m") {
        Some(if shift { Command::Drafts } else { Command::Mark })
    } else if str_eq(key, "s") {
        Some(Command::Save)
    } else if str_eq(key, "f") {
        Some(Command::Find)
    } else if str_eq(key, "r") {
        Some(Command::Rename)
    } else if str_eq(key, "p") {
        Some(Command::TogglePreview)
    } else if str_eq(key, "t") {
        Some(Command::ToggleTheme)
    } else if str_eq(key, "d") {
        Some(Command::Publish)
    } else if str_eq(key, "y") {
        Some(Command::Typewriter)
    } else if str_eq(key, "g") {
        Some(Command::FocusDim)
    } else if str_eq(key, "e") {
        Some(Command::Hemingway)
    } else if str_eq(key, "k") {
        Some(Command::Zen)
    } else if str_eq(key, "l") {
        Some(Command::Goal)
    } else if str_eq(key, "i") && shift {
        Some(Command::Import)
    } else {
        None
    }
}

/// A key as the editor view tells keys apart: a character key (its text)
/// or a named key.
#[derive(Debug, Clone)]
pub enum ViewKey {
    Char(String),
    Left,
    Right,
    Up,
    Down,
    Backspace,
    Delete,
    Enter,
    Home,
    End,
    Other,
}

pub enum ViewKeyV {
    Char(Seq<char>),
    Left,
    Right,
    Up,
    Down,
    Backspace,
    Delete,
    Enter,
    Home,
    End,
    Other,
}

impl View for ViewKey {
    type V = ViewKeyV;

    open spec fn view(&self) -> ViewKeyV {
        match self {
            ViewKey::Char(c) => ViewKeyV::Char(c@),
            ViewKey::Left => ViewKeyV::Left,
            ViewKey::Right => ViewKeyV::Right,
            ViewKey::Up => ViewKeyV::Up,
            ViewKey::Down => ViewKeyV::Down,
            ViewKey::Backspace => ViewKeyV::Backspace,
            ViewKey::Delete => ViewKeyV::Delete,
            ViewKey::Enter => ViewKeyV::Enter,
            ViewKey::Home => ViewKeyV::Home,
            ViewKey::End => ViewKeyV::End,
            ViewKey::Other => ViewKeyV::Other,
        }
    }
}

/// The modifiers the view reads: the platform's command key (Cmd on macOS,
/// Ctrl elsewhere), Option/Alt, and Shift.
#[derive(Debug, Clone, Copy, PartialEq, Eq, Structural)]
pub struct ViewMods {
    pub command: bool,
    pub alt: bool,
    pub shift: bool,
}

/// What the view does with a key press.
#[derive(Debug)]
pub enum KeyDecision {
    /// Hand this action to the app.
    Act(Action),
    /// Cmd+C: put the selection on the clipboard; nothing for the app.
    CopySelection,
    /// Cmd+X: put the selection on the clipboard, then cut.
    CutSelection,
    /// Cmd+V: paste what the clipboard holds.
    PasteClipboard,
    /// Up/Down: a move along visual rows, which the view resolves to a
    /// position with its wrap layout.
    VerticalMove { up: bool, extend: bool },
    Ignore,
}

pub enum KeyDecisionV {
    Act(ActionV),
    CopySelection,
    CutSelection,
    PasteClipboard,
    VerticalMove { up: bool, extend: bool },
    Ignore,
}

impl View for KeyDecision {
    type V = KeyDecisionV;

    open spec fn view(&self) -> KeyDecisionV {
        match self {
            KeyDecision::Act(a) => KeyDecisionV::Act(a@),
            KeyDecision::CopySelection => KeyDecisionV::CopySelection,
            KeyDecision::CutSelection => KeyDecisionV::CutSelection,
            KeyDecision::PasteClipboard => KeyDecisionV::PasteClipboard,
            KeyDecision::VerticalMove { up, extend } => KeyDecisionV::VerticalMove { up: *up, extend: *extend },
            KeyDecision::Ignore => KeyDecisionV::Ignore,
        }
    }
}

/// A control character (general category Cc).
pub open spec fn is_control(c: char) -> bool {
    c <= '\u{1f}' || ('\u{7f}' <= c && c <= '\u{9f}')
}

/// Typed text the view inserts: non-empty, with no control characters.
pub open spec fn insertable(t: Seq<char>) -> bool {
    t.len() > 0 && forall|i: int| 0 <= i < t.len() ==> !is_control(#[trigger] t[i])
}

/// The view's keymap: command shortcuts, then editing and movement keys
/// (Option/Alt moves and deletes by words), else the typed text.
pub open spec fn key_decision_spec(key: ViewKeyV, m: ViewMods, text: Option<Seq<char>>) -> KeyDecisionV {
    let extend = m.shift;
    if m.command {
        match key {
            ViewKeyV::Char(c) => if c == "z"@ {
                KeyDecisionV::Act(if m.shift { ActionV::Redo } else { ActionV::Undo })
            } else if c == "a"@ {
                KeyDecisionV::Act(ActionV::SelectAll)
            } else if c == "c"@ {
                KeyDecisionV::CopySelection
            } else if c == "x"@ {
                KeyDecisionV::CutSelection
            } else if c == "v"@ {
                KeyDecisionV::PasteClipboard
            } else {
                KeyDecisionV::Act(ActionV::Command { key: c, shift: m.shift })
            },
            ViewKeyV::Left => KeyDecisionV::Act(ActionV::Move(Motion::Home, extend)),
            ViewKeyV::Right => KeyDecisionV::Act(ActionV::Move(Motion::End, extend)),
            ViewKeyV::Up => KeyDecisionV::Act(ActionV::Move(Motion::DocStart, extend)),
            ViewKeyV::Down => KeyDecisionV::Act(ActionV::Move(Motion::DocEnd, extend)),
            ViewKeyV::Backspace => KeyDecisionV::Act(ActionV::DeleteToLineStart),
            ViewKeyV::Delete => KeyDecisionV::Act(ActionV::DeleteToLineEnd),
            _ => KeyDecisionV::Ignore,
        }
    } else {
        match key {
            ViewKeyV::Backspace => KeyDecisionV::Act(if m.alt { ActionV::DeleteWordBack } else { ActionV::Backspace }),
            ViewKeyV::Delete => KeyDecisionV::Act(if m.alt { ActionV::DeleteWordForward } else { ActionV::Delete }),
            ViewKeyV::Enter => KeyDecisionV::Act(ActionV::Enter),
            ViewKeyV::Left => KeyDecisionV::Act(
                ActionV::Move(if m.alt { Motion::WordLeft } else { Motion::Left }, extend),
            ),
            ViewKeyV::Right => KeyDecisionV::Act(
                ActionV::Move(if m.alt { Motion::WordRight } else { Motion::Right }, extend),
            ),
            ViewKeyV::Up => KeyDecisionV::VerticalMove { up: true, extend },
            ViewKeyV::Down => KeyDecisionV::VerticalMove { up: false, extend },
            ViewKeyV::Home => KeyDecisionV::Act(ActionV::Move(Motion::Home, extend)),
            ViewKeyV::End => KeyDecisionV::Act(ActionV::Move(Motion::End, extend)),
            _ => match text {
                Some(t) => if insertable(t) {
                    KeyDecisionV::Act(ActionV::Insert(t))
                } else {
                    KeyDecisionV::Ignore
                },
                None => KeyDecisionV::Ignore,
            },
        }
    }
}

fn insertable_text(t: &str) -> (b: bool)
    ensures
        b == insertable(t@),
{
    let cs = chars_of(t);
    if cs.len() == 0 {
        return false;
    }
    let mut i: usize = 0;
    while i < cs.len()
        invariant
            i <= cs@.len(),
            cs@ == t@,
            forall|k: int| 0 <= k < i ==> !is_control(#[trigger] cs@[k]),
        decreases cs@.len() - i,
    {
        let c = cs[i];
        if c <= '\u{1f}' || ('\u{7f}' <= c && c <= '\u{9f}') {
            return false;
        }
        i = i + 1;
    }
    true
}

/// What the editor view does with a key press: `text` is what the key
/// types, when it types something.
pub fn key_decision(key: ViewKey, mods: ViewMods, text: Option<String>) -> (r: KeyDecision)
    ensures
        r@ == key_decision_spec(key@, mods, match text {
            Some(t) => Some(t@),
            None => None,
        }),
{
    let extend = mods.shift;
    if mods.command {
        match key {
            ViewKey::Char(c) => {
                if str_eq(c.as_str(), "z") {
                    KeyDecision::Act(if mods.shift { Action::Redo } else { Action::Undo })
                } else if str_eq(c.as_str(), "a") {
                    KeyDecision::Act(Action::SelectAll)
                } else if str_eq(c.as_str(), "c") {
                    KeyDecision::CopySelection
                } else if str_eq(c.as_str(), "x") {
                    KeyDecision::CutSelection
                } else if str_eq(c.as_str(), "v") {
                    KeyDecision::PasteClipboard
                } else {
                    KeyDecision::Act(Action::Command { key: c, shift: mods.shift })
                }
            },
            ViewKey::Left => KeyDecision::Act(Action::Move(Motion::Home, extend)),
            ViewKey::Right => KeyDecision::Act(Action::Move(Motion::End, extend)),
            ViewKey::Up => KeyDecision::Act(Action::Move(Motion::DocStart, extend)),
            ViewKey::Down => KeyDecision::Act(Action::Move(Motion::DocEnd, extend)),
            ViewKey::Backspace => KeyDecision::Act(Action::DeleteToLineStart),
            ViewKey::Delete => KeyDecision::Act(Action::DeleteToLineEnd),
            _ => KeyDecision::Ignore,
        }
    } else {
        match key {
            ViewKey::Backspace => KeyDecision::Act(if mods.alt { Action::DeleteWordBack } else { Action::Backspace }),
            ViewKey::Delete => KeyDecision::Act(if mods.alt { Action::DeleteWordForward } else { Action::Delete }),
            ViewKey::Enter => KeyDecision::Act(Action::Enter),
            ViewKey::Left => KeyDecision::Act(Action::Move(if mods.alt { Motion::WordLeft } else { Motion::Left }, extend)),
            ViewKey::Right => KeyDecision::Act(
                Action::Move(if mods.alt { Motion::WordRight } else { Motion::Right }, extend),
            ),
            ViewKey::Up => KeyDecision::VerticalMove { up: true, extend },
            ViewKey::Down => KeyDecision::VerticalMove { up: false, extend },
            ViewKey::Home => KeyDecision::Act(Action::Move(Motion::Home, extend)),
            ViewKey::End => KeyDecision::Act(Action::Move(Motion::End, extend)),
            _ => match text {
                Some(t) => {
                    if insertable_text(t.as_str()) {
                        KeyDecision::Act(Action::Insert(t))
                    } else {
                        KeyDecision::Ignore
                    }
                },
                None => KeyDecision::Ignore,
            },
        }
    }
}

} // verus!
