use polaris::buffer::Buffer;
use polaris::cursor::{
    grapheme_col, next_grapheme_boundary, next_word_boundary, pos_at_grapheme_col,
    prev_grapheme_boundary, prev_word_boundary, Cursor,
};
use polaris::history::{EditOp, History};
use polaris::typography::{in_code_context, substitute, substitute_in_context};

// --- buffer ---

#[test]
fn insert_and_remove_roundtrip() {
    let mut b = Buffer::from_str("hello world");
    b.insert(5, ",");
    assert_eq!(b.to_string(), "hello, world");
    let removed = b.remove(5..6);
    assert_eq!(removed, ",");
    assert_eq!(b.to_string(), "hello world");
}

#[test]
fn char_indexing_with_multibyte() {
    let mut b = Buffer::from_str("café");
    b.insert(4, "!");
    assert_eq!(b.to_string(), "café!");
    assert_eq!(b.len_chars(), 5);
}

#[test]
fn line_content_len_excludes_newline() {
    let b = Buffer::from_str("ab\ncdé\n");
    assert_eq!(b.line_content_len(0), 2);
    assert_eq!(b.line_content_len(1), 3);
    // trailing newline yields a final empty line
    assert_eq!(b.len_lines(), 3);
    assert_eq!(b.line_content_len(2), 0);
}

#[test]
fn crlf_is_one_line_break() {
    let b = Buffer::from_str("a\r\nb\rc");
    assert_eq!(b.len_lines(), 3);
    assert_eq!(b.char_to_line(2), 0); // the LF of the CRLF pair
    assert_eq!(b.line_to_char(1), 3);
    assert_eq!(b.line_to_char(3), 6);
    assert_eq!(b.line(0), "a\r\n");
    assert_eq!(b.slice(1..4), "\r\nb");
}

// --- cursor ---

#[test]
fn grapheme_steps_over_combining_accent() {
    // "e" + U+0301 combining acute: one grapheme, two chars
    let b = Buffer::from_str("ae\u{301}b");
    assert_eq!(next_grapheme_boundary(&b, 1), 3);
    assert_eq!(prev_grapheme_boundary(&b, 3), 1);
}

#[test]
fn grapheme_steps_over_zwj_emoji() {
    // Family emoji: multiple scalars joined by ZWJ, one grapheme
    let family = "\u{1F468}\u{200D}\u{1F469}\u{200D}\u{1F467}";
    let text = format!("a{}b", family);
    let b = Buffer::from_str(&text);
    let family_chars = family.chars().count();
    assert_eq!(next_grapheme_boundary(&b, 1), 1 + family_chars);
    assert_eq!(prev_grapheme_boundary(&b, 1 + family_chars), 1);
}

#[test]
fn grapheme_crosses_lines() {
    let b = Buffer::from_str("ab\ncd");
    assert_eq!(next_grapheme_boundary(&b, 2), 3); // over the newline
    assert_eq!(prev_grapheme_boundary(&b, 3), 2); // back over it
}

#[test]
fn boundaries_clamp_at_ends() {
    let b = Buffer::from_str("ab");
    assert_eq!(prev_grapheme_boundary(&b, 0), 0);
    assert_eq!(next_grapheme_boundary(&b, 2), 2);
}

#[test]
fn word_boundaries_basic() {
    let b = Buffer::from_str("hello brave world");
    assert_eq!(prev_word_boundary(&b, 17), 12); // start of "world"
    assert_eq!(prev_word_boundary(&b, 12), 6); // start of "brave"
    assert_eq!(next_word_boundary(&b, 0), 5); // end of "hello"
    assert_eq!(next_word_boundary(&b, 5), 11); // end of "brave"
}

#[test]
fn word_boundaries_cross_lines() {
    let b = Buffer::from_str("one\ntwo");
    assert_eq!(next_word_boundary(&b, 3), 7); // end of "two"
    assert_eq!(prev_word_boundary(&b, 4), 0); // start of "one"
}

#[test]
fn word_boundary_with_punctuation() {
    let b = Buffer::from_str("it's done.");
    // "it's" is one word under UAX-29
    assert_eq!(next_word_boundary(&b, 0), 4);
    assert_eq!(prev_word_boundary(&b, 9), 5); // start of "done"
}

#[test]
fn sticky_column_helpers() {
    let b = Buffer::from_str("e\u{301}xy\nab");
    // col of 'y' on line 0: é(1 grapheme, 2 chars) + x = col 2
    assert_eq!(grapheme_col(&b, 3), 2);
    assert_eq!(pos_at_grapheme_col(&b, 1, 2), 7); // clamped to end of "ab"
    assert_eq!(pos_at_grapheme_col(&b, 0, 1), 2); // after é = char 2
}

#[test]
fn selection_normalizes_direction() {
    let c = Cursor {
        pos: 2,
        anchor: Some(5),
        sticky_col: None,
    };
    assert_eq!(c.selection(), Some(2..5));
    let c2 = Cursor {
        pos: 5,
        anchor: Some(5),
        sticky_col: None,
    };
    assert_eq!(c2.selection(), None);
}

// --- history ---

#[test]
fn undo_redo_roundtrip() {
    let mut buffer = Buffer::new();
    let mut history = History::new();

    buffer.insert(0, "hi");
    history.record(
        EditOp::Insert {
            at: 0,
            text: "hi".into(),
        },
        0,
        2,
    );

    assert_eq!(history.undo(&mut buffer), Some(0));
    assert_eq!(buffer.to_string(), "");
    assert_eq!(history.redo(&mut buffer), Some(2));
    assert_eq!(buffer.to_string(), "hi");
}

#[test]
fn grouped_ops_undo_together() {
    let mut buffer = Buffer::new();
    let mut history = History::new();

    for (i, c) in "abc".chars().enumerate() {
        buffer.insert(i, &c.to_string());
        history.record(
            EditOp::Insert {
                at: i,
                text: c.to_string(),
            },
            i,
            i + 1,
        );
    }

    assert_eq!(history.undo(&mut buffer), Some(0));
    assert_eq!(buffer.to_string(), "");
}

#[test]
fn commit_splits_groups() {
    let mut buffer = Buffer::new();
    let mut history = History::new();

    buffer.insert(0, "a");
    history.record(
        EditOp::Insert {
            at: 0,
            text: "a".into(),
        },
        0,
        1,
    );
    history.commit();
    buffer.insert(1, "b");
    history.record(
        EditOp::Insert {
            at: 1,
            text: "b".into(),
        },
        1,
        2,
    );

    assert_eq!(history.undo(&mut buffer), Some(1));
    assert_eq!(buffer.to_string(), "a");
    assert_eq!(history.undo(&mut buffer), Some(0));
    assert_eq!(buffer.to_string(), "");
}

#[test]
fn new_edit_clears_redo() {
    let mut buffer = Buffer::new();
    let mut history = History::new();

    buffer.insert(0, "a");
    history.record(
        EditOp::Insert {
            at: 0,
            text: "a".into(),
        },
        0,
        1,
    );
    history.undo(&mut buffer);
    assert!(history.can_redo());

    buffer.insert(0, "b");
    history.record(
        EditOp::Insert {
            at: 0,
            text: "b".into(),
        },
        0,
        1,
    );
    assert!(!history.can_redo());
}

#[test]
fn remove_op_undoes_to_insert() {
    let mut buffer = Buffer::from_str("héllo");
    let mut history = History::new();

    let removed = buffer.remove(1..2);
    history.record(
        EditOp::Remove {
            at: 1,
            text: removed,
        },
        2,
        1,
    );

    assert_eq!(buffer.to_string(), "hllo");
    history.undo(&mut buffer);
    assert_eq!(buffer.to_string(), "héllo");
}

// --- typography ---

fn apply(text: &str, typed: char) -> String {
    match substitute(text, typed) {
        Some(sub) => {
            let keep: String = {
                let chars: Vec<char> = text.chars().collect();
                chars[..chars.len() - sub.delete_before].iter().collect()
            };
            format!("{}{}", keep, sub.insert)
        }
        None => format!("{}{}", text, typed),
    }
}

#[test]
fn double_quotes_curl_by_context() {
    assert_eq!(apply("", '"'), "\u{201C}");
    assert_eq!(apply("he said ", '"'), "he said \u{201C}");
    assert_eq!(apply("(", '"'), "(\u{201C}");
    assert_eq!(
        apply("he said \u{201C}hi", '"'),
        "he said \u{201C}hi\u{201D}"
    );
    assert_eq!(apply("word", '"'), "word\u{201D}");
}

#[test]
fn single_quotes_and_apostrophes() {
    assert_eq!(apply("", '\''), "\u{2018}");
    assert_eq!(apply("say ", '\''), "say \u{2018}");
    // apostrophe inside a word closes
    assert_eq!(apply("it", '\''), "it\u{2019}");
    assert_eq!(apply("writers", '\''), "writers\u{2019}");
}

#[test]
fn double_hyphen_becomes_em_dash() {
    assert_eq!(apply("word -", '-'), "word \u{2014}");
    assert_eq!(apply("word-", '-'), "word\u{2014}");
}

#[test]
fn hyphen_only_lines_stay_literal_for_markdown_rules() {
    // "---" horizontal rule / front-matter fence must remain typeable
    assert_eq!(apply("-", '-'), "--");
    assert_eq!(apply("--", '-'), "---");
    assert_eq!(apply("text\n-", '-'), "text\n--");
    // but an em dash after a word mid-line still works
    assert_eq!(apply("text\nword -", '-'), "text\nword \u{2014}");
}

#[test]
fn single_hyphen_is_literal() {
    assert_eq!(apply("word ", '-'), "word -");
}

#[test]
fn triple_dot_becomes_ellipsis() {
    assert_eq!(apply("wait..", '.'), "wait\u{2026}");
    // a lone or double dot stays literal
    assert_eq!(apply("wait", '.'), "wait.");
    assert_eq!(apply("wait.", '.'), "wait..");
    // and we don't chain onto an existing ellipsis or four dots
    assert_eq!(apply("wait...", '.'), "wait....");
}

#[test]
fn other_chars_pass_through() {
    assert_eq!(substitute("anything", 'a'), None);
    assert_eq!(substitute("anything", ' '), None);
}

#[test]
fn context_guard_skips_code() {
    // Inline span (odd backticks on the line): no substitution.
    assert_eq!(substitute_in_context("run `--verbose", '-'), None);
    assert!(in_code_context("run `--verbose"));
    // Closed span: back to normal.
    assert!(!in_code_context("run `x` then --"));
    assert!(substitute_in_context("run `x` then --", '-').is_some());
    // Fenced block (odd fences).
    assert!(in_code_context("```\ncode --"));
    assert_eq!(substitute_in_context("```\ncode --", '-'), None);
    assert!(!in_code_context("```\ncode\n```\nprose --"));
}

#[test]
fn indented_fence_and_crlf_lines_count() {
    assert!(in_code_context("  ```rust\r\nlet x = 1;"));
    assert!(!in_code_context("text\n\t```\nx\n```\n"));
}
