use polaris::buffer::Buffer;
use polaris::desktop::buffer_line_step;
use polaris::drafts::notes::{NoteState, NoteStore};
use polaris::drafts::store::{DraftStore, Kind, AUTO_INTERVAL_MS, AUTO_KEEP_MS};
use polaris::editor::buffer::TextBuffer;
use polaris::publish::html::escape;
use polaris::tui::buffer::TextBuffer as ByteBuffer;
use polaris::tui::editor::{Editor, EditorMode, Key, KeyPress, Mods};
use std::path::PathBuf;

#[test]
fn reanchoring_twice_changes_nothing_the_second_time() {
    let mut store = NoteStore::new(PathBuf::from("/tmp/.polaris/a.md"), Vec::new());
    store.add(0, 4, "beta".into(), "one".into(), 0);
    store.add(9, 14, "gamma".into(), "two".into(), 1);
    store.add(0, 3, "zzz".into(), "three".into(), 2);
    let src = "alpha beta gamma beta";
    assert!(store.reanchor(src));
    let first: Vec<(usize, usize, bool)> = store.notes().iter().map(|n| (n.start, n.end, n.detached)).collect();
    assert!(!store.reanchor(src), "settled");
    let second: Vec<(usize, usize, bool)> = store.notes().iter().map(|n| (n.start, n.end, n.detached)).collect();
    assert_eq!(first, second);
    assert_eq!(first, vec![(6, 10, false), (11, 16, false), (0, 3, true)]);
}

#[test]
fn toggling_twice_restores_the_state() {
    let mut store = NoteStore::new(PathBuf::from("/tmp/.polaris/a.md"), Vec::new());
    let a = store.add(0, 1, "a".into(), "x".into(), 0);
    let _b = store.add(0, 1, "b".into(), "y".into(), 1);
    store.toggle_resolved(&a);
    store.toggle_resolved(&a);
    assert!(store.notes().iter().all(|n| n.state == NoteState::Open));
    store.toggle_resolved("no such id");
    assert!(store.notes().iter().all(|n| n.is_open()));
}

#[test]
fn removing_drops_only_that_id() {
    let mut store = NoteStore::new(PathBuf::from("/tmp/.polaris/a.md"), Vec::new());
    let a = store.add(0, 1, "a".into(), "x".into(), 0);
    store.add(2, 3, "b".into(), "y".into(), 1);
    store.remove(&a);
    assert_eq!(store.notes().len(), 1);
    assert_eq!(store.notes()[0].body, "y");
}

#[test]
fn an_auto_snapshot_defers_the_next_for_an_interval() {
    let mut store = DraftStore::new(PathBuf::from("/tmp/.polaris/a.md"), Vec::new());
    store.snapshot("marked", Kind::Marked, None, 0);
    assert!(store.should_auto_snapshot(5), "no auto yet");
    store.snapshot("text", Kind::Auto, None, 1_000);
    assert!(!store.should_auto_snapshot(1_000));
    assert!(!store.should_auto_snapshot(1_000 + AUTO_INTERVAL_MS - 1));
    assert!(!store.should_auto_snapshot(10), "a clock behind the snapshot is not due");
    assert!(store.should_auto_snapshot(1_000 + AUTO_INTERVAL_MS));
    // The same text again adds nothing.
    assert!(store.snapshot("text", Kind::Auto, None, 1_000 + AUTO_INTERVAL_MS).is_none());
}

#[test]
fn pruning_never_drops_marked_or_young_entries() {
    let mut store = DraftStore::new(PathBuf::from("/tmp/.polaris/a.md"), Vec::new());
    for i in 0..70u64 {
        let kind = if i % 10 == 0 { Kind::Marked } else { Kind::Auto };
        store.snapshot(&format!("text {i}"), kind, None, i);
    }
    let young = AUTO_KEEP_MS + 100;
    store.snapshot("young", Kind::Auto, None, young);
    let now = AUTO_KEEP_MS + 150;
    let marked = store.marked_count();
    let removed = store.prune(now);
    assert_eq!(marked, 7);
    assert_eq!(store.marked_count(), 7);
    // 64 autos: the newest 50 stay, 14 go.
    assert_eq!(removed, 14);
    assert!(store.entries().iter().any(|e| e.created_ms == young));
    assert_eq!(store.prune(now), 0, "pruning again removes nothing");
}

#[test]
fn escaped_text_holds_no_markup() {
    let out = escape("<a href=\"x\">&</a> > <");
    assert!(!out.contains('<') && !out.contains('>'));
    assert_eq!(out, "&lt;a href=\"x\"&gt;&amp;&lt;/a&gt; &gt; &lt;");
}

#[test]
fn typing_then_backspace_restores_the_lines() {
    let mut b = TextBuffer::new();
    for c in "héllo\nwörld".chars() {
        if c == '\n' {
            b.insert_newline();
        } else {
            b.insert_char(c);
        }
    }
    b.cursor_y = 0;
    b.cursor_x = 2;
    let before = b.lines.clone();
    b.insert_char('é');
    assert_ne!(b.lines, before);
    b.backspace();
    assert_eq!(b.lines, before);
    assert_eq!(b.cursor_x, 2);
    // Enter then Backspace joins the split line back.
    b.insert_newline();
    assert_eq!(b.lines, vec!["hé", "llo", "wörld"]);
    b.backspace();
    assert_eq!(b.lines, before);
    assert_eq!((b.cursor_x, b.cursor_y), (2, 0));
}

#[test]
fn buffer_line_steps_progress_and_stay_in_the_text() {
    let buf = Buffer::from_str("ab\ncd\n\nef");
    let len = buf.len_chars();
    for pos in 0..=len {
        let down = buffer_line_step(&buf, pos, false);
        let up = buffer_line_step(&buf, pos, true);
        assert!(down <= len && up <= len);
        if pos < len {
            assert!(down > pos);
        }
        if pos > 0 {
            assert!(up < pos);
        }
    }
    assert_eq!(buffer_line_step(&buf, 4, false), 6);
    assert_eq!(buffer_line_step(&buf, 7, true), 6);
}

#[test]
fn a_dirty_editor_never_quits() {
    let mut e = Editor::new(ByteBuffer::new());
    e.handle_key(KeyPress { key: Key::Char('x'), mods: Mods::Plain });
    for _ in 0..3 {
        e.handle_key(KeyPress { key: Key::Char('q'), mods: Mods::Control });
        assert!(!e.should_quit);
    }
    e.handle_key(KeyPress { key: Key::Char('p'), mods: Mods::Control });
    assert_eq!(e.mode, EditorMode::Preview);
    let lines = e.buffer.lines.clone();
    e.handle_key(KeyPress { key: Key::Down, mods: Mods::Plain });
    e.handle_key(KeyPress { key: Key::Char('z'), mods: Mods::Plain });
    assert_eq!(e.buffer.lines, lines, "preview keys leave the text alone");
}
