use polaris::ffi::{render_preview, smart_substitution, word_count, PolarisDocument};
use polaris::markdown::{markdown_events, EvData, EvShape, TagKind};
use polaris::notion::{markdown_to_notion_blocks, BlockKind, NotionBlock};
use polaris::preview::{render, PreviewBlock, PreviewSpan};
use polaris::reading::{block_offsets, reading_blocks, Face, ReadKind};

fn text_of(block: &NotionBlock) -> String {
    block.rich_text.iter().map(|r| r.content.as_str()).collect()
}

fn kinds(blocks: &[NotionBlock]) -> Vec<&'static str> {
    blocks.iter().map(|b| b.kind.api_type()).collect()
}

#[test]
fn empty_input_produces_no_blocks() {
    assert!(markdown_to_notion_blocks("").is_empty());
}

#[test]
fn headings_map_to_levels() {
    let blocks = markdown_to_notion_blocks("# One\n\n## Two\n\n### Three\n\n#### Four");
    assert_eq!(kinds(&blocks), vec!["heading_1", "heading_2", "heading_3", "heading_3"]);
    assert_eq!(text_of(&blocks[0]), "One");
    assert_eq!(text_of(&blocks[1]), "Two");
}

#[test]
fn paragraph_text() {
    let blocks = markdown_to_notion_blocks("hello world");
    assert_eq!(blocks.len(), 1);
    assert_eq!(blocks[0].kind, BlockKind::Paragraph);
    assert_eq!(text_of(&blocks[0]), "hello world");
}

#[test]
fn multiple_paragraphs_stay_separate() {
    let blocks = markdown_to_notion_blocks("first\n\nsecond");
    assert_eq!(blocks.len(), 2);
    assert_eq!(text_of(&blocks[0]), "first");
    assert_eq!(text_of(&blocks[1]), "second");
}

#[test]
fn soft_break_joins_paragraph_with_newline() {
    let blocks = markdown_to_notion_blocks("line one\nline two");
    assert_eq!(blocks.len(), 1);
    assert_eq!(text_of(&blocks[0]), "line one\nline two");
}

#[test]
fn bulleted_list() {
    let blocks = markdown_to_notion_blocks("- alpha\n- beta");
    assert_eq!(blocks.len(), 2);
    for block in &blocks {
        assert_eq!(block.kind, BlockKind::BulletedListItem);
    }
    assert_eq!(text_of(&blocks[0]), "alpha");
    assert_eq!(text_of(&blocks[1]), "beta");
}

#[test]
fn ordered_list_becomes_numbered_items() {
    let blocks = markdown_to_notion_blocks("1. first\n2. second");
    assert_eq!(blocks.len(), 2);
    for block in &blocks {
        assert_eq!(block.kind, BlockKind::NumberedListItem);
    }
    assert_eq!(text_of(&blocks[0]), "first");
    assert_eq!(text_of(&blocks[1]), "second");
}

#[test]
fn inline_code_in_list_item() {
    let blocks = markdown_to_notion_blocks("- run `cargo test` now");
    assert_eq!(blocks.len(), 1);
    let rich_text = &blocks[0].rich_text;
    assert_eq!(rich_text.len(), 3);
    assert_eq!(rich_text[1].content, "cargo test");
    assert!(rich_text[1].code);
}

#[test]
fn fenced_code_block_with_language() {
    let blocks = markdown_to_notion_blocks("```rust\nfn main() {}\n```");
    assert_eq!(blocks.len(), 1);
    assert_eq!(blocks[0].kind, BlockKind::Code);
    assert_eq!(blocks[0].language, "rust");
    assert_eq!(text_of(&blocks[0]), "fn main() {}");
}

#[test]
fn fenced_code_block_without_language_is_plain_text() {
    let blocks = markdown_to_notion_blocks("```\nsome text\n```");
    assert_eq!(blocks[0].language, "plain text");
}

#[test]
fn code_block_preserves_interior_newlines() {
    let blocks = markdown_to_notion_blocks("```\nline one\nline two\n```");
    assert_eq!(text_of(&blocks[0]), "line one\nline two");
}

#[test]
fn inline_code_in_paragraph() {
    let blocks = markdown_to_notion_blocks("use `foo` here");
    assert_eq!(blocks.len(), 1);
    let rich_text = &blocks[0].rich_text;
    assert_eq!(rich_text.len(), 3);
    assert_eq!(rich_text[0].content, "use ");
    assert_eq!(rich_text[1].content, "foo");
    assert!(rich_text[1].code);
    assert_eq!(rich_text[2].content, " here");
}

#[test]
fn paragraph_after_heading_stays_separate() {
    let blocks = markdown_to_notion_blocks("# Title\n\nbody text");
    assert_eq!(blocks.len(), 2);
    assert_eq!(text_of(&blocks[0]), "Title");
    assert_eq!(blocks[1].kind, BlockKind::Paragraph);
    assert_eq!(text_of(&blocks[1]), "body text");
}

#[test]
fn inline_code_in_heading() {
    let blocks = markdown_to_notion_blocks("# Use `foo`");
    assert_eq!(blocks.len(), 1);
    let rich_text = &blocks[0].rich_text;
    assert_eq!(blocks[0].kind, BlockKind::Heading1);
    assert_eq!(rich_text.len(), 2);
    assert_eq!(rich_text[1].content, "foo");
    assert!(rich_text[1].code);
}

#[test]
fn blockquote() {
    let blocks = markdown_to_notion_blocks("> wisdom");
    assert_eq!(blocks.len(), 1);
    assert_eq!(blocks[0].kind, BlockKind::Quote);
    assert_eq!(text_of(&blocks[0]), "wisdom");
}

#[test]
fn horizontal_rule_becomes_divider() {
    let blocks = markdown_to_notion_blocks("above\n\n---\n\nbelow");
    assert_eq!(blocks.len(), 3);
    assert_eq!(blocks[1].kind, BlockKind::Divider);
}

#[test]
fn mixed_document() {
    let markdown = "# Title\n\nIntro paragraph.\n\n- item\n\n```sh\necho hi\n```\n";
    let blocks = markdown_to_notion_blocks(markdown);
    assert_eq!(kinds(&blocks), vec!["heading_1", "paragraph", "bulleted_list_item", "code"]);
}

#[test]
fn unicode_text_passes_through() {
    let blocks = markdown_to_notion_blocks("café — “quoted”");
    assert_eq!(text_of(&blocks[0]), "café — “quoted”");
}

#[test]
fn markdown_events_carry_shape_tag_and_datum() {
    let evs = markdown_events("## Hi", false, false);
    assert_eq!(evs.len(), 3);
    assert_eq!(evs[0].shape, EvShape::Start);
    assert_eq!(evs[0].tag, TagKind::Heading);
    assert!(matches!(evs[0].data, EvData::Level(2)));
    assert_eq!(evs[1].shape, EvShape::Text);
    assert!(matches!(&evs[1].data, EvData::Text(t) if t == "Hi"));
    assert_eq!(evs[2].shape, EvShape::End);
}

// --- preview ---

#[test]
fn headings_paragraphs_and_emphasis() {
    let b = render("# Title\n\nplain **bold** and *italic*.");
    assert_eq!(
        b[0],
        PreviewBlock::Heading {
            level: 1,
            spans: vec![PreviewSpan {
                text: "Title".into(),
                bold: false,
                italic: false,
                code: false
            }]
        }
    );
    let PreviewBlock::Paragraph { spans } = &b[1] else {
        panic!("expected paragraph")
    };
    assert!(spans.iter().any(|s| s.text == "bold" && s.bold));
    assert!(spans.iter().any(|s| s.text == "italic" && s.italic));
}

#[test]
fn lists_quotes_code_rules() {
    let b = render("- one\n- two\n\n> quote\n\n```rust\nfn x() {}\n```\n\n---");
    assert!(matches!(b[0], PreviewBlock::ListItem { ordered: false, .. }));
    assert!(matches!(&b[2], PreviewBlock::Quote { .. }));
    assert!(
        matches!(&b[3], PreviewBlock::Code { language, text } if language == "rust" && text == "fn x() {}")
    );
    assert_eq!(b[4], PreviewBlock::Rule);

    let ol = render("1. a\n2. b");
    assert!(matches!(&ol[0], PreviewBlock::ListItem { marker, .. } if marker == "1."));
    assert!(matches!(&ol[1], PreviewBlock::ListItem { marker, .. } if marker == "2."));
}

#[test]
fn ordered_lists_count_from_their_start_and_bullets_use_a_dash() {
    let b = render_preview("7. a\n8. b\n\n- c".to_string());
    assert!(matches!(&b[0], PreviewBlock::ListItem { ordered: true, marker, .. } if marker == "7."));
    assert!(matches!(&b[1], PreviewBlock::ListItem { marker, .. } if marker == "8."));
    assert!(matches!(&b[2], PreviewBlock::ListItem { ordered: false, marker, .. } if marker == "\u{2013}"));
}

// --- the native bridge's stateless calls ---

#[test]
fn stateless_word_count_and_smart_punctuation() {
    assert_eq!(word_count("héllo brave 👋 world".to_string()), 3);

    let sub = smart_substitution("word ".to_string(), "-".to_string());
    assert!(sub.is_none(), "single hyphen is literal");
    let sub = smart_substitution("word -".to_string(), "-".to_string()).unwrap();
    assert_eq!((sub.delete_before, sub.insert.as_str()), (1, "\u{2014}"));
    // Guarded inside code.
    assert!(smart_substitution("run `--".to_string(), "-".to_string()).is_none());
}

#[test]
fn smart_substitution_wants_exactly_one_char() {
    assert!(smart_substitution("a..".to_string(), "".to_string()).is_none());
    assert!(smart_substitution("a..".to_string(), "..".to_string()).is_none());
    let sub = smart_substitution("a..".to_string(), ".".to_string()).unwrap();
    assert_eq!((sub.delete_before, sub.insert.as_str()), (2, "\u{2026}"));
}

// --- the desktop preview's reading model ---

#[test]
fn block_offsets_are_ordered_and_land_on_each_block() {
    let src = "# Title\n\nFirst paragraph.\n\nSecond paragraph.\n\n- one\n- two\n";
    let offsets = block_offsets(src);
    // heading, para, para, item, item = 5 blocks.
    assert_eq!(offsets.len(), 5);
    // Non-decreasing, and each points at where its block starts.
    assert!(offsets.windows(2).all(|w| w[0] <= w[1]));
    assert_eq!(offsets[0], src.find("# Title").unwrap());
    assert_eq!(offsets[1], src.find("First").unwrap());
    assert_eq!(offsets[2], src.find("Second").unwrap());
    assert_eq!(offsets[3], src.find("- one").unwrap());
    assert_eq!(offsets[4], src.find("- two").unwrap());
}

#[test]
fn block_offsets_is_empty_for_blank_source() {
    assert!(block_offsets("").is_empty());
}

#[test]
fn reading_blocks_carry_faces_quotes_and_tables() {
    let src = "> *soft* **hard** `x`\n\n| a | b |\n|---|---|\n| 1 | **2** |\n";
    let blocks = reading_blocks(src);
    assert_eq!(blocks.len(), 2);
    match &blocks[0].kind {
        ReadKind::Paragraph { quote, spans } => {
            assert!(*quote);
            assert_eq!(spans[0].text, "soft");
            assert_eq!(spans[0].face, Face::Italic);
            assert!(spans.iter().any(|s| s.text == "hard" && s.face == Face::Semibold));
            assert!(spans.iter().any(|s| s.text == "x" && s.face == Face::Mono));
        }
        other => panic!("expected a quoted paragraph, got {other:?}"),
    }
    match &blocks[1].kind {
        ReadKind::Table { rows } => {
            assert_eq!(rows.len(), 2);
            assert_eq!(rows[0][1][0].text, "b");
            assert_eq!(rows[1][1][0].text, "2");
            assert_eq!(rows[1][1][0].face, Face::Semibold);
        }
        other => panic!("expected a table, got {other:?}"),
    }
    assert_eq!(blocks[1].source, src.find("| a").unwrap());
}

#[test]
fn document_round_trips_through_the_bridge_type() {
    let mut doc = PolarisDocument::new("héllo".to_string());
    let end = doc.len_chars();
    doc.set_cursor(end); // caret to end, then append
    doc.insert(" 👋 world".to_string());
    assert_eq!(doc.text(), "héllo 👋 world");
    assert_eq!(doc.word_count(), 2); // the emoji isn't a word
    assert!(doc.is_dirty());

    // Grouped undo removes the whole inserted run.
    assert!(doc.undo());
    assert_eq!(doc.text(), "héllo");
    assert!(doc.redo());
    assert_eq!(doc.text(), "héllo 👋 world");
}

#[test]
fn editing_primitives() {
    let mut doc = PolarisDocument::new(String::new());
    doc.insert("one".to_string());
    doc.newline();
    doc.insert("two".to_string());
    assert_eq!(doc.text(), "one\ntwo");
    doc.backspace();
    assert_eq!(doc.text(), "one\ntw");
    assert_eq!(doc.cursor(), 6);
    doc.set_cursor(1_000);
    assert_eq!(doc.cursor(), 6, "clamped to the text");
}

#[test]
fn notion_runs_carry_bold_and_italic() {
    let blocks = markdown_to_notion_blocks("a **b** c");
    assert_eq!(blocks.len(), 1);
    assert_eq!(blocks[0].kind, BlockKind::Paragraph);
    let runs = &blocks[0].rich_text;
    assert_eq!(runs.len(), 3);
    assert_eq!((runs[0].content.as_str(), runs[0].bold), ("a ", false));
    assert_eq!((runs[1].content.as_str(), runs[1].bold), ("b", true));
    assert_eq!((runs[2].content.as_str(), runs[2].bold), (" c", false));
    let nested = markdown_to_notion_blocks("***both** one* plain `c`");
    let r = &nested[0].rich_text;
    assert!(r[0].bold && r[0].italic, "{:?}", r);
    assert!(!r[1].bold && r[1].italic);
    assert!(!r[2].bold && !r[2].italic);
    assert!(r[3].code && !r[3].bold);
}
