//! The desktop front-end's logic: the app's decisions between messages
//! (autosave, restoring a draft, applying a review, the pointers, closing),
//! the editor view's keymap and the editing session it drives (typing with
//! smart punctuation and its one-keystroke revert, Hemingway mode), the
//! app's shortcut keymap, the session word
//! goal, how source lines are styled, the first-run tour, the quote a note
//! anchors by, relative times in the drafts browser, and the buffer steps
//! the editor view falls back on. The window, widgets, layout and event
//! loop are the front-end's.

pub mod typing;
pub mod session;
pub mod goal;
pub mod keymap;
pub mod styling;
pub mod find;
pub mod app;

pub use typing::{Revert, insert_with_typography, backspace_with_revert};
pub use session::{Action, EditSession, Handled, Motion};
pub use goal::{Goal, GoalEntry, goal_entry, goal_progress};
pub use keymap::{Command, KeyDecision, ViewKey, ViewMods, command_for, key_decision};
pub use styling::{RunStyle, StyledRun, line_spans};
pub use find::FindState;

use vstd::prelude::*;
use std::ops::Range;
use crate::buffer::{Buffer, breaks_before, line_start, line_count, line_text, lemma_line_of, lemma_line_start};
use crate::cursor::line_at;
use crate::tui::buffer::{blen, byte_len_of, prefix_byte_len, chars_before_byte, first_at_or_past};
use crate::cursor::{prev_word_boundary, next_word_boundary, prev_word_spec, next_word_spec};
use crate::lines::{lines_of, trim, split_lines, trim_chars, is_blank};
use crate::text::{chars_of, string_of, append_chars, decimal, dec_of};
use crate::drafts::store::sat_sub;

verus! {

/// The first-run tour: shown once in the untitled buffer, reopenable with
/// `polaris welcome`. It is a sample document, so closing it is one
/// keystroke and typing over it re-arms save protection.
pub const WELCOME: &'static str = "# Welcome to Polaris

One quiet page. Everything saves itself.

## The basics

- Just type \u{2014} **autosave** writes about a second after your last keystroke (\"\u{25cf} saved\", top right)
- *Smart punctuation* happens as you type: -- becomes an em dash, \"quotes curl\", dots become an ellipsis\u{2026}
- The chrome fades while you write and returns when you rest
- Close the window anytime \u{2014} your words are already on disk

## Keys

| Key | Does |
|-----|------|
| Cmd+P | Preview \u{2014} this page, typeset (arrows scroll; Esc returns) |
| Cmd+F | Find (Enter cycles matches) |
| Cmd+S | Save now, or name an untitled file |
| Cmd+R | Rename the file |
| Cmd+T | Light / dark |
| Cmd+Z | Undo, in word-sized steps |

## Writing modes

| Key | Mode |
|-----|------|
| Cmd+Y | Typewriter \u{2014} the line you're writing holds still |
| Cmd+G | Focus \u{2014} only your paragraph at full ink |
| Cmd+E | Hemingway \u{2014} forward only, no deleting |
| Cmd+K | Zen \u{2014} chrome hidden until summoned |
| Cmd+L | Session goal \u{2014} try 500 |

## Drafts

Your document quietly keeps its history. **Cmd+M** names a version
(\"Draft 1 \u{2014} first pass\"); **Cmd+Shift+M** browses them with word-level
diffs \u{2014} R restores, and even that is one Cmd+Z from undone.

> Write with the door closed, rewrite with the door open.

## Publish

**Cmd+D** deploys to Notion (`polaris config --token \u{2026} --default-page \u{2026}`
first). More targets are coming \u{2014} write once, publish anywhere.

---

Every word in a Polaris document is typed by a person. Polaris will never
write for you.

Try **Cmd+P** right now to see this page typeset. Then delete all this and
start writing \u{2014} or just close the window. (`polaris welcome` brings it back.)
";

/// The first line of `ls` that is not blank (empty when there is none).
pub open spec fn first_nonblank_line(ls: Seq<Seq<char>>) -> Seq<char>
    decreases ls.len(),
{
    if ls.len() == 0 {
        Seq::empty()
    } else if trim(ls[0]).len() > 0 {
        ls[0]
    } else {
        first_nonblank_line(ls.drop_first())
    }
}

/// The anchor quote for a note on a block: its first non-blank source line,
/// trimmed, at most 120 chars.
pub open spec fn anchor_quote_spec(block_src: Seq<char>) -> Seq<char> {
    let t = trim(first_nonblank_line(lines_of(block_src)));
    if t.len() <= 120 {
        t
    } else {
        t.take(120)
    }
}

/// The anchor quote for a note on a block: its first non-empty source line,
/// trimmed and capped. A prefix of the block, so it re-anchors by exact match
/// yet is resilient to edits later in the block.
pub fn anchor_quote(block_src: &str) -> (r: String)
    ensures
        r@ == anchor_quote_spec(block_src@),
{
    let cs = chars_of(block_src);
    let ls = split_lines(&cs);
    let ghost lv = lines_of(block_src@);
    let mut i: usize = 0;
    assert(lv.skip(0) =~= lv);
    while i < ls.len() && is_blank(&ls[i])
        invariant
            i <= ls@.len(),
            crate::lines::views_of(ls@) == lv,
            first_nonblank_line(lv) == first_nonblank_line(lv.skip(i as int)),
        decreases ls@.len() - i,
    {
        assert(lv.skip(i as int)[0] == ls@[i as int]@);
        assert(lv.skip(i as int).drop_first() =~= lv.skip(i + 1));
        i = i + 1;
    }
    let line: Vec<char> = if i < ls.len() {
        assert(lv.skip(i as int)[0] == ls@[i as int]@);
        trim_chars(&ls[i])
    } else {
        assert(lv.skip(i as int) =~= Seq::<Seq<char>>::empty());
        assert(trim(Seq::<char>::empty()) =~= Seq::<char>::empty());
        Vec::new()
    };
    let n = if line.len() <= 120 {
        line.len()
    } else {
        120
    };
    let kept = crate::text::slice_chars(&line, 0, n);
    assert(line@.len() <= 120 ==> kept@ =~= line@);
    string_of(kept.as_slice())
}

/// `"just now"` / `"5 min ago"` / `"3 h ago"` / `"2 days ago"`.
pub open spec fn ago_spec(now_ms: u64, then_ms: u64) -> Seq<char> {
    let secs = sat_sub(now_ms, then_ms) / 1000;
    if secs <= 59 {
        "just now"@
    } else if secs <= 3599 {
        dec_of((secs / 60) as nat) + " min ago"@
    } else if secs <= 86_399 {
        dec_of((secs / 3600) as nat) + " h ago"@
    } else {
        dec_of((secs / 86_400) as nat) + " days ago"@
    }
}

/// How long ago `then_ms` was at `now_ms`, in words.
pub fn ago(now_ms: u64, then_ms: u64) -> (r: String)
    ensures
        r@ == ago_spec(now_ms, then_ms),
{
    let secs = now_ms.saturating_sub(then_ms) / 1000;
    if secs <= 59 {
        let v = chars_of("just now");
        return string_of(v.as_slice());
    }
    let (n, unit) = if secs <= 3599 {
        (secs / 60, " min ago")
    } else if secs <= 86_399 {
        (secs / 3600, " h ago")
    } else {
        (secs / 86_400, " days ago")
    };
    let mut v = decimal(n);
    let u = chars_of(unit);
    append_chars(&mut v, &u);
    string_of(v.as_slice())
}

/// A one-buffer-line step, the anti-stuck fallback for visual moves: down
/// lands at the start of the next line (end of document if none), up at the
/// start of the previous line (0 if none). Each step makes progress and
/// stays within the document.
pub fn buffer_line_step(buffer: &Buffer, pos: usize, up: bool) -> (r: usize)
    requires
        pos <= buffer@.len(),
    ensures
        r <= buffer@.len(),
        up && pos > 0 ==> r < pos,
        !up && pos < buffer@.len() ==> r > pos,
        ({
            let l = breaks_before(buffer@, pos as int);
            r == if up {
                if l == 0 {
                    0
                } else {
                    line_start(buffer@, (l - 1) as nat)
                }
            } else if l + 1 >= line_count(buffer@) {
                buffer@.len() as int
            } else {
                line_start(buffer@, (l + 1) as nat)
            }
        }),
{
    proof {
        let l = breaks_before(buffer@, pos as int);
        lemma_line_of(buffer@, pos as int);
        lemma_line_start(buffer@, l);
        lemma_line_start(buffer@, l + 1);
        if l > 0 {
            lemma_line_start(buffer@, (l - 1) as nat);
        }
    }
    let line = buffer.char_to_line(pos);
    let count = buffer.len_lines();
    if up {
        if line == 0 {
            0
        } else {
            buffer.line_to_char(line - 1)
        }
    } else if line + 1 >= count {
        buffer.len_chars()
    } else {
        buffer.line_to_char(line + 1)
    }
}

/// Word selection bounds around a position, for double-click.
pub fn word_range_at(buffer: &Buffer, position: usize) -> (r: Range<usize>)
    ensures
        ({
            let p = if position <= buffer@.len() { position as int } else { buffer@.len() as int };
            let start = prev_word_spec(buffer@, p);
            let end = next_word_spec(buffer@, start);
            &&& r.start == start
            &&& r.end == if end >= position { end } else { position as int }
        }),
{
    let len = buffer.len_chars();
    let p = if position <= len { position } else { len };
    let start = prev_word_boundary(buffer, p);
    let end = next_word_boundary(buffer, start);
    let stop = if end >= position { end } else { position };
    start..stop
}

/// A line's text without its line break.
pub open spec fn content_of(t: Seq<char>) -> Seq<char> {
    if t.len() > 0 && t.last() == '\n' {
        t.drop_last()
    } else {
        t
    }
}

/// Where char position `pos` is as (line, byte offset in the line); past
/// the line's last char, the end of its content.
pub open spec fn line_byte_spec(s: Seq<char>, pos: int) -> (int, int) {
    let l = breaks_before(s, pos);
    let t = line_text(s, l);
    let k = pos - line_start(s, l);
    (l as int, if k < t.len() { blen(t.take(k)) as int } else { blen(content_of(t)) as int })
}

/// A char position as (line, byte offset in the line).
pub fn char_pos_to_line_byte(buffer: &Buffer, pos: usize) -> (r: (usize, usize))
    requires
        pos <= buffer@.len(),
    ensures
        (r.0 as int, r.1 as int) == line_byte_spec(buffer@, pos as int),
{
    let (l, ls, chars, line) = line_at(buffer, pos);
    let total = byte_len_of(&line);
    let k = pos - ls;
    let byte = if k < chars.len() {
        prefix_byte_len(&chars, total, k)
    } else if chars.len() > 0 && chars[chars.len() - 1] == '\n' {
        proof {
            assert(chars@.take(chars@.len() - 1) =~= chars@.drop_last());
        }
        prefix_byte_len(&chars, total, chars.len() - 1)
    } else {
        total
    };
    (l, byte)
}

/// The char position of byte `byte` on line `line` (both clamped): the
/// line's start plus the chars that begin before that byte.
pub open spec fn char_pos_spec(s: Seq<char>, line: int, byte: int) -> int {
    let n = line_count(s);
    let l = if line <= n - 1 { line } else if n >= 1 { n - 1 } else { 0 };
    let c = content_of(line_text(s, l as nat));
    let b = if byte <= blen(c) { byte } else { blen(c) as int };
    line_start(s, l as nat) + first_at_or_past(c, b, 0)
}

pub fn line_byte_to_char_pos(buffer: &Buffer, line: usize, byte: usize) -> (r: usize)
    ensures
        r == char_pos_spec(buffer@, line as int, byte as int),
{
    let n = buffer.len_lines();
    let last = if n >= 1 { n - 1 } else { 0 };
    let l = if line <= last { line } else { last };
    proof {
        crate::buffer::lemma_line_start(buffer@, l as nat);
    }
    let start = buffer.line_to_char(l);
    let (_, _, chars, text) = line_at(buffer, start);
    let total = byte_len_of(&text);
    let content_len = if chars.len() > 0 && chars[chars.len() - 1] == '\n' {
        chars.len() - 1
    } else {
        chars.len()
    };
    let content = crate::text::slice_chars(&chars, 0, content_len);
    proof {
        assert(content@ =~= content_of(chars@));
    }
    let ctotal = prefix_byte_len(&chars, total, content_len);
    proof {
        assert(chars@.take(content_len as int) =~= content@);
    }
    let b = if byte <= ctotal { byte } else { ctotal };
    let k = chars_before_byte(&content, ctotal, b);
    start + k
}

} // verus!
