use polaris::desktop::{
    ago, anchor_quote, buffer_line_step, char_pos_to_line_byte, line_byte_to_char_pos, word_range_at,
    WELCOME,
};
use polaris::buffer::Buffer;
use polaris::editor::buffer::TextBuffer;
use std::path::PathBuf;

fn type_str(buffer: &mut TextBuffer, s: &str) {
    for c in s.chars() {
        buffer.insert_char(c);
    }
}

#[test]
fn insert_ascii() {
    let mut b = TextBuffer::new();
    type_str(&mut b, "hello");
    assert_eq!(b.lines, vec!["hello"]);
    assert_eq!(b.cursor_x, 5);
    assert!(b.dirty);
}

#[test]
fn insert_after_multibyte_char() {
    let mut b = TextBuffer::new();
    // Inserting after a multi-byte char used to panic on a non-boundary byte index
    type_str(&mut b, "éx");
    assert_eq!(b.lines, vec!["éx"]);
    assert_eq!(b.cursor_x, 2);
}

#[test]
fn insert_smart_typography_chars() {
    let mut b = TextBuffer::new();
    type_str(&mut b, "“hello” — it’s fine…");
    assert_eq!(b.lines, vec!["“hello” — it’s fine…"]);
}

#[test]
fn insert_mid_line_with_multibyte_prefix() {
    let mut b = TextBuffer::new();
    type_str(&mut b, "café");
    b.cursor_x = 3;
    b.insert_char('f');
    assert_eq!(b.lines, vec!["caffé"]);
    assert_eq!(b.cursor_x, 4);
}

#[test]
fn backspace_multibyte() {
    let mut b = TextBuffer::new();
    type_str(&mut b, "café");
    b.backspace();
    assert_eq!(b.lines, vec!["caf"]);
    assert_eq!(b.cursor_x, 3);
}

#[test]
fn backspace_before_multibyte() {
    let mut b = TextBuffer::new();
    type_str(&mut b, "aéb");
    b.cursor_x = 2; // between é and b
    b.backspace();
    assert_eq!(b.lines, vec!["ab"]);
    assert_eq!(b.cursor_x, 1);
}

#[test]
fn backspace_at_line_start_merges_lines() {
    let mut b = TextBuffer::new();
    type_str(&mut b, "café");
    b.insert_newline();
    type_str(&mut b, "au lait");
    b.cursor_x = 0;
    b.backspace();
    assert_eq!(b.lines, vec!["caféau lait"]);
    assert_eq!(b.cursor_y, 0);
    assert_eq!(b.cursor_x, 4); // after é, in chars
}

#[test]
fn delete_multibyte() {
    let mut b = TextBuffer::new();
    type_str(&mut b, "aéb");
    b.cursor_x = 1;
    b.delete();
    assert_eq!(b.lines, vec!["ab"]);
}

#[test]
fn delete_at_line_end_merges_lines() {
    let mut b = TextBuffer::new();
    type_str(&mut b, "one");
    b.insert_newline();
    type_str(&mut b, "two");
    b.cursor_y = 0;
    b.cursor_x = 3;
    b.delete();
    assert_eq!(b.lines, vec!["onetwo"]);
}

#[test]
fn newline_splits_at_multibyte_boundary() {
    let mut b = TextBuffer::new();
    type_str(&mut b, "aé b");
    b.cursor_x = 2; // after é
    b.insert_newline();
    assert_eq!(b.lines, vec!["aé", " b"]);
    assert_eq!(b.cursor_y, 1);
    assert_eq!(b.cursor_x, 0);
}

#[test]
fn cursor_moves_over_multibyte_line() {
    let mut b = TextBuffer::new();
    type_str(&mut b, "é");
    b.insert_newline();
    type_str(&mut b, "long line");
    b.move_cursor_up();
    assert_eq!(b.cursor_x, 1); // clamped to char count, not byte count
    b.move_to_line_end();
    assert_eq!(b.cursor_x, 1);
    b.move_cursor_right();
    assert_eq!((b.cursor_y, b.cursor_x), (1, 0));
    b.move_cursor_left();
    assert_eq!((b.cursor_y, b.cursor_x), (0, 1));
}

#[test]
fn get_content_joins_lines() {
    let mut b = TextBuffer::new();
    type_str(&mut b, "one");
    b.insert_newline();
    type_str(&mut b, "two");
    assert_eq!(b.get_content(), "one\ntwo");
}

#[test]
fn text_buffer_from_text_save_as_and_names() {
    let b = TextBuffer::from_text("", PathBuf::from("/tmp/a.md"));
    assert_eq!(b.lines, vec![""]);
    let mut b = TextBuffer::from_text("x\r\ny\n", PathBuf::from("/tmp/a.md"));
    assert_eq!(b.lines, vec!["x", "y"]);
    assert_eq!(b.filename(), "a.md");
    assert!(!b.dirty);
    b.insert_char('!');
    b.save_as(PathBuf::from("/tmp/b.md"));
    assert_eq!(b.filename(), "b.md");
    assert!(b.dirty);
    b.mark_saved();
    assert!(!b.dirty);
    assert_eq!(TextBuffer::new().filename(), "[No Name]");
    assert_eq!(TextBuffer::default().get_content(), "");
}

#[test]
fn text_buffer_edges_do_nothing() {
    let mut b = TextBuffer::new();
    b.backspace();
    b.delete();
    b.move_cursor_left();
    b.move_cursor_up();
    b.move_cursor_down();
    b.move_cursor_right();
    assert_eq!(b.lines, vec![""]);
    assert_eq!((b.cursor_y, b.cursor_x), (0, 0));
    assert!(!b.dirty);
    b.cursor_y = 1; // one past the last line: a new line is added
    b.insert_newline();
    assert_eq!(b.lines, vec!["", ""]);
    assert_eq!(b.cursor_y, 1);
}

// --- desktop helpers ---

#[test]
fn welcome_tour_mentions_every_binding() {
    for key in [
        "Cmd+P",
        "Cmd+F",
        "Cmd+S",
        "Cmd+R",
        "Cmd+T",
        "Cmd+Z",
        "Cmd+Y",
        "Cmd+G",
        "Cmd+E",
        "Cmd+K",
        "Cmd+L",
        "Cmd+M",
        "Cmd+Shift+M",
        "Cmd+D",
    ] {
        assert!(WELCOME.contains(key), "welcome tour is missing {key}");
    }
}

#[test]
fn buffer_line_step_always_progresses_and_clamps() {
    let b = Buffer::from_str("one\ntwo\nthree");
    // Down from line 0 → start of line 1; up → 0.
    assert_eq!(buffer_line_step(&b, 1, false), 4); // "two" starts at char 4
    assert_eq!(buffer_line_step(&b, 1, true), 0);
    // Down from the last line clamps to end; up from first clamps to 0.
    let end = b.len_chars();
    assert_eq!(buffer_line_step(&b, 9, false), end);
    assert_eq!(buffer_line_step(&b, 0, true), 0);
}

#[test]
fn anchor_quote_takes_the_first_nonblank_line_capped() {
    assert_eq!(anchor_quote("\n   \n  First line here \nsecond"), "First line here");
    assert_eq!(anchor_quote(""), "");
    let long = "x".repeat(200);
    assert_eq!(anchor_quote(&long).chars().count(), 120);
}

#[test]
fn ago_reads_in_words() {
    assert_eq!(ago(59_999, 0), "just now");
    assert_eq!(ago(5 * 60_000, 0), "5 min ago");
    assert_eq!(ago(3 * 3_600_000, 0), "3 h ago");
    assert_eq!(ago(2 * 86_400_000, 0), "2 days ago");
    assert_eq!(ago(0, 1_000_000), "just now");
}

#[test]
fn word_range_covers_the_word_under_the_pointer() {
    let b = Buffer::from_str("hello brave world");
    let r = word_range_at(&b, 8);
    assert_eq!((r.start, r.end), (6, 11));
}

#[test]
fn char_positions_and_line_bytes_convert_both_ways() {
    let b = Buffer::from_str("héllo\nwörld");
    assert_eq!(char_pos_to_line_byte(&b, 2), (0, 3)); // after "hé"
    assert_eq!(char_pos_to_line_byte(&b, 5), (0, 6)); // the line's end
    assert_eq!(char_pos_to_line_byte(&b, 8), (1, 3)); // after "wö"
    assert_eq!(line_byte_to_char_pos(&b, 0, 3), 2);
    assert_eq!(line_byte_to_char_pos(&b, 1, 3), 8);
    assert_eq!(line_byte_to_char_pos(&b, 1, 99), 11); // clamped to the content
    assert_eq!(line_byte_to_char_pos(&b, 7, 0), 6); // clamped to the last line
}
