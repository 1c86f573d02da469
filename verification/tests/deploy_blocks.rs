use polaris::deploy_blocks::markdown_to_notion_blocks;
use polaris::notion::{BlockKind, NotionBlock};

fn texts(b: &NotionBlock) -> Vec<String> {
    b.rich_text.iter().map(|r| r.content.clone()).collect()
}

#[test]
fn headings_paragraphs_and_dividers() {
    let blocks = markdown_to_notion_blocks("# Title\n\nSome text.\n\n---\n\n#### Deep");
    let kinds: Vec<BlockKind> = blocks.iter().map(|b| b.kind).collect();
    assert_eq!(kinds, vec![BlockKind::Heading1, BlockKind::Divider, BlockKind::Heading3]);
    // Text after a heading block runs on into it.
    assert_eq!(texts(&blocks[0]), vec!["Title", "Some text."]);
    assert!(blocks[1].rich_text.is_empty());
    assert_eq!(texts(&blocks[2]), vec!["Deep"]);
}

#[test]
fn lists_are_bulleted_items() {
    let blocks = markdown_to_notion_blocks("Intro\n\n1. one\n2. two `code`\n");
    assert_eq!(blocks.len(), 3);
    assert_eq!(blocks[0].kind, BlockKind::Paragraph);
    assert_eq!(texts(&blocks[0]), vec!["Intro"]);
    assert_eq!(blocks[1].kind, BlockKind::BulletedListItem);
    assert_eq!(texts(&blocks[1]), vec!["one"]);
    assert_eq!(blocks[2].kind, BlockKind::BulletedListItem);
    assert_eq!(texts(&blocks[2]), vec!["two ", "code"]);
    assert!(blocks[2].rich_text[1].code);
    assert!(!blocks[2].rich_text[0].code);
}

#[test]
fn code_blocks_keep_language_or_say_plain_text() {
    let blocks = markdown_to_notion_blocks("```rust\nfn main() {}\n```\n\n    indented\n");
    assert_eq!(blocks.len(), 2);
    assert_eq!(blocks[0].kind, BlockKind::Code);
    assert_eq!(blocks[0].language, "rust");
    assert_eq!(texts(&blocks[0]), vec!["fn main() {}"]);
    assert_eq!(blocks[1].language, "plain text");
    assert_eq!(texts(&blocks[1]), vec!["indented"]);
}

#[test]
fn quotes_collect_their_text_and_inline_code_goes_to_the_paragraph() {
    let blocks = markdown_to_notion_blocks("> quoted\n\nplain `x` end");
    assert_eq!(blocks[0].kind, BlockKind::Quote);
    assert_eq!(texts(&blocks[0]), vec!["quoted", "plain ", " end"]);
    assert_eq!(blocks[1].kind, BlockKind::Paragraph);
    assert_eq!(texts(&blocks[1]), vec!["x"]);
    assert!(blocks[1].rich_text[0].code);
}

#[test]
fn line_breaks_become_newline_runs() {
    let blocks = markdown_to_notion_blocks("one\ntwo");
    assert_eq!(blocks.len(), 1);
    assert_eq!(texts(&blocks[0]), vec!["one", "\n", "two"]);
}

#[test]
fn bold_and_italic_become_annotations() {
    let blocks = markdown_to_notion_blocks("a **b** c *d* `e`");
    assert_eq!(blocks.len(), 1);
    let runs = &blocks[0].rich_text;
    let view: Vec<(&str, bool, bool, bool)> =
        runs.iter().map(|r| (r.content.as_str(), r.bold, r.italic, r.code)).collect();
    assert_eq!(
        view,
        vec![
            ("a ", false, false, false),
            ("b", true, false, false),
            (" c ", false, false, false),
            ("d", false, true, false),
            (" ", false, false, false),
            ("e", false, false, true),
        ]
    );
}
