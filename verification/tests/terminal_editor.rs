use polaris::cli::{apply_config, page_for_deploy};
use polaris::deploy::{page_url, parse_mode, Deploy, DeployAction, DeployEvent, Phase, PublishMode};
use polaris::publish::registry::NotionConfig;
use polaris::tui::buffer::TextBuffer;
use polaris::tui::editor::{Editor, EditorAction, EditorMode, Key, KeyPress, Mods};
use std::path::PathBuf;

fn press(e: &mut Editor, key: Key, mods: Mods) -> EditorAction {
    let k = KeyPress { key, mods };
    assert!(e.can_take(k));
    e.handle_key(k)
}

fn type_str(e: &mut Editor, s: &str) {
    for c in s.chars() {
        press(e, Key::Char(c), Mods::Plain);
    }
}

#[test]
fn byte_cursor_edits_ascii() {
    let mut b = TextBuffer::new();
    b.insert_char('a');
    b.insert_char('c');
    b.cursor_x = 1;
    b.insert_char('b');
    assert_eq!(b.lines, vec!["abc"]);
    assert_eq!(b.cursor_x, 2);
    b.insert_newline();
    assert_eq!(b.lines, vec!["ab", "c"]);
    b.backspace();
    assert_eq!(b.lines, vec!["abc"]);
    assert_eq!((b.cursor_y, b.cursor_x), (0, 2));
    b.delete();
    assert_eq!(b.lines, vec!["ab"]);
    assert_eq!(b.get_content(), "ab");
}

#[test]
fn byte_cursor_counts_utf8_bytes() {
    let mut b = TextBuffer::from_text("é\nxy", PathBuf::from("/tmp/t.md"));
    b.move_to_line_end();
    assert_eq!(b.cursor_x, 2); // "é" is two bytes
    b.cursor_y = 1;
    b.cursor_x = 2;
    b.move_cursor_up();
    assert_eq!((b.cursor_y, b.cursor_x), (0, 2));
    b.insert_char('!');
    assert_eq!(b.lines, vec!["é!", "xy"]);
    b.cursor_x = 0;
    b.cursor_y = 1;
    b.backspace();
    assert_eq!(b.lines, vec!["é!xy"]);
    assert_eq!(b.cursor_x, 3);
}

#[test]
fn editor_types_saves_and_quits() {
    let mut e = Editor::new(TextBuffer::new());
    type_str(&mut e, "hi");
    press(&mut e, Key::Tab, Mods::Plain);
    assert_eq!(e.buffer.lines, vec!["hi    "]);
    // Untitled: Ctrl+S asks for a name.
    assert_eq!(press(&mut e, Key::Char('s'), Mods::Control), EditorAction::Nothing);
    assert_eq!(e.mode, EditorMode::SaveAs);
    assert_eq!(e.message.as_deref(), Some("Enter filename:"));
    type_str(&mut e, "nx");
    press(&mut e, Key::Backspace, Mods::Plain);
    type_str(&mut e, "ote.md");
    assert_eq!(e.save_as_input, "note.md");
    assert_eq!(press(&mut e, Key::Enter, Mods::Plain), EditorAction::SaveAs);
    assert_eq!(e.buffer.file_path, Some(PathBuf::from("note.md")));
    e.save_as_done(None);
    assert_eq!(e.mode, EditorMode::Normal);
    assert_eq!(e.message.as_deref(), Some("File saved as: note.md"));
    assert!(!e.buffer.dirty);
    // Named: Ctrl+S saves.
    type_str(&mut e, "!");
    assert_eq!(press(&mut e, Key::Char('s'), Mods::Control), EditorAction::Save);
    e.save_done(Some("disk full".to_string()));
    assert_eq!(e.message.as_deref(), Some("Error saving file: disk full"));
    // Dirty: Ctrl+Q warns instead of quitting.
    press(&mut e, Key::Char('q'), Mods::Control);
    assert!(!e.should_quit);
    assert!(e.message.as_deref().unwrap().starts_with("Unsaved changes!"));
    e.save_done(None);
    assert_eq!(e.message.as_deref(), Some("File saved successfully."));
    press(&mut e, Key::Char('q'), Mods::Control);
    assert!(e.should_quit);
}

#[test]
fn editor_preview_scrolls_and_needs_control_to_leave() {
    let mut e = Editor::new(TextBuffer::new());
    press(&mut e, Key::Char('p'), Mods::Control);
    assert_eq!(e.mode, EditorMode::Preview);
    press(&mut e, Key::Down, Mods::Plain);
    press(&mut e, Key::Down, Mods::Plain);
    press(&mut e, Key::Up, Mods::Plain);
    assert_eq!(e.buffer.scroll_offset, 1);
    press(&mut e, Key::Esc, Mods::Plain);
    assert_eq!(e.mode, EditorMode::Preview);
    press(&mut e, Key::Esc, Mods::Control);
    assert_eq!(e.mode, EditorMode::Normal);
    press(&mut e, Key::Char('d'), Mods::Control);
    assert!(e.should_deploy);
}

#[test]
fn editor_status_and_scroll() {
    let mut e = Editor::new(TextBuffer::new());
    assert_eq!(e.status_text(), "[No Name] | 1:1 | NORMAL");
    type_str(&mut e, "ab");
    assert_eq!(e.status_text(), "[No Name] [+] | 1:3 | NORMAL");
    e.buffer.cursor_y = 10;
    e.adjust_scroll(4);
    assert_eq!(e.buffer.scroll_offset, 7);
    e.buffer.cursor_y = 2;
    e.adjust_scroll(4);
    assert_eq!(e.buffer.scroll_offset, 2);
}

#[test]
fn a_mid_character_cursor_is_refused() {
    let mut e = Editor::new(TextBuffer::from_text("é", PathBuf::from("/tmp/t.md")));
    press(&mut e, Key::Right, Mods::Plain); // one byte: inside "é"
    assert!(!e.can_take(KeyPress { key: Key::Char('x'), mods: Mods::Plain }));
    assert!(e.can_take(KeyPress { key: Key::Left, mods: Mods::Plain }));
}

// --- deploy ---

#[test]
fn append_sends_batches_of_a_hundred() {
    let (mut d, a) = Deploy::start("ab-cd", PublishMode::Append, 250);
    assert!(matches!(a, DeployAction::AppendBatch { start: 0, end: 100 }));
    let a = d.step(DeployEvent::Appended);
    assert!(matches!(a, DeployAction::AppendBatch { start: 100, end: 200 }));
    let a = d.step(DeployEvent::Appended);
    assert!(matches!(a, DeployAction::AppendBatch { start: 200, end: 250 }));
    let a = d.step(DeployEvent::Appended);
    assert!(matches!(a, DeployAction::Done { url } if url == "https://notion.so/abcd"));
    assert_eq!(d.phase(), Phase::Finished);
    let (_, a) = Deploy::start("p", PublishMode::Append, 0);
    assert!(matches!(a, DeployAction::Done { .. }));
}

#[test]
fn replace_lists_deletes_then_appends() {
    let (mut d, a) = Deploy::start("p", PublishMode::Replace, 1);
    assert!(matches!(a, DeployAction::ListChildren { cursor: None }));
    let a = d.step(DeployEvent::Listed {
        ids: vec!["b1".into()],
        has_more: true,
        next_cursor: Some("c2".into()),
    });
    assert!(matches!(a, DeployAction::ListChildren { cursor: Some(c) } if c == "c2"));
    let a = d.step(DeployEvent::Listed { ids: vec!["b2".into()], has_more: false, next_cursor: None });
    assert!(matches!(a, DeployAction::DeleteBlock { id } if id == "b1"));
    let a = d.step(DeployEvent::Deleted);
    assert!(matches!(a, DeployAction::DeleteBlock { id } if id == "b2"));
    let a = d.step(DeployEvent::Failed { text: "gone".into() });
    assert!(matches!(a, DeployAction::Fail { message } if message == "Failed to delete block b2: gone"));
}

#[test]
fn modes_urls_and_config() {
    assert_eq!(parse_mode("replace"), PublishMode::Replace);
    assert_eq!(parse_mode("append"), PublishMode::Append);
    assert_eq!(parse_mode("other"), PublishMode::Append);
    assert_eq!(page_url("1a-2b-3c"), "https://notion.so/1a2b3c");
    assert_eq!(page_for_deploy(Some("x".into()), &Some("y".into())), Ok("x".to_string()));
    assert_eq!(page_for_deploy(None, &Some("y".into())), Ok("y".to_string()));
    assert!(page_for_deploy(None, &None).unwrap_err().starts_with("No Notion page ID specified"));
    let mut n = NotionConfig { token: Some("t".into()), default_page: None };
    apply_config(&mut n, None, Some("p".into()));
    assert_eq!((n.token.as_deref(), n.default_page.as_deref()), (Some("t"), Some("p")));
}
