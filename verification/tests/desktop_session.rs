use polaris::desktop::{
    Action, Command, EditSession, FindState, Goal, GoalEntry, Handled, KeyDecision, Motion, ViewKey, ViewMods,
    RunStyle, backspace_with_revert, command_for, goal_entry, goal_progress, key_decision, line_spans,
    insert_with_typography,
};
use polaris::document::Document;
use polaris::drafts::notes::NoteStore;
use polaris::preview_notes::{block_of, block_span, note_at_block, note_jump, note_marks, noted_blocks, pointer_step};
use polaris::reading::block_offsets;

fn act(s: &mut EditSession, action: Action) -> Handled {
    s.on_editor_action(action)
}

fn type_into(s: &mut EditSession, text: &str) {
    for c in text.chars() {
        if c == '\n' {
            act(s, Action::Enter);
        } else {
            act(s, Action::Insert(c.to_string()));
        }
    }
}

fn session() -> EditSession {
    EditSession::new(Document::new())
}

fn selected(s: &EditSession) -> Option<String> {
    s.doc.selected_text()
}

#[test]
fn smart_punctuation_applies_on_input() {
    let mut s = session();
    type_into(&mut s, "wait -- \"really\" it's...");
    assert_eq!(s.doc.text(), "wait \u{2014} \u{201C}really\u{201D} it\u{2019}s\u{2026}");
}

#[test]
fn smart_punctuation_skipped_in_code_contexts() {
    let mut s = session();
    type_into(&mut s, "```\n--verbose \"flag\"\n```\nand `--inline \"x\"` here");
    let text = s.doc.text();
    assert!(text.contains("--verbose \"flag\""), "fence stays literal");
    assert!(text.contains("`--inline \"x\"`"), "inline span stays literal");
}

#[test]
fn backspace_right_after_substitution_reverts_to_literal() {
    let mut s = session();
    type_into(&mut s, "a--");
    assert!(s.doc.text().starts_with("a\u{2014}"));
    act(&mut s, Action::Backspace);
    assert!(s.doc.text().starts_with("a--"), "literal restored");
    // A second backspace is a plain backspace again.
    act(&mut s, Action::Backspace);
    assert!(s.doc.text().starts_with("a-"));
}

#[test]
fn markdown_rule_stays_typeable() {
    let mut s = session();
    type_into(&mut s, "text\n\n---");
    assert!(s.doc.text().contains("\n---"), "hr not turned into a dash");
}

#[test]
fn paste_and_cut_roundtrip_through_core() {
    let mut s = session();
    act(&mut s, Action::Paste("pasted words\n".to_string()));
    assert_eq!(s.doc.text(), "pasted words\n");
    act(&mut s, Action::SelectAll);
    act(&mut s, Action::Cut);
    assert_eq!(s.doc.text(), "");
    act(&mut s, Action::Undo);
    assert_eq!(s.doc.text(), "pasted words\n");
}

#[test]
fn click_drag_and_double_click_select() {
    let mut s = session();
    type_into(&mut s, "hello brave world");
    act(&mut s, Action::Click { position: 0, extend: false });
    act(&mut s, Action::DragTo { position: 5 });
    assert_eq!(selected(&s).as_deref(), Some("hello"));

    act(&mut s, Action::SelectWord { position: 7 });
    assert_eq!(selected(&s).as_deref(), Some("brave"));
}

#[test]
fn navigation_actions_route_through_core() {
    let mut s = session();
    type_into(&mut s, "hello brave world");

    act(&mut s, Action::Move(Motion::DocStart, false));
    assert_eq!(s.doc.cursor().pos, 0);
    act(&mut s, Action::Move(Motion::WordRight, false));
    assert_eq!(s.doc.cursor().pos, 5, "end of 'hello'");

    act(&mut s, Action::Move(Motion::DocEnd, false));
    assert_eq!(s.doc.cursor().pos, s.doc.text().chars().count());
    act(&mut s, Action::Move(Motion::DocStart, true));
    assert_eq!(selected(&s).as_deref(), Some("hello brave world"));

    act(&mut s, Action::VerticalMove { target: 6, extend: false });
    assert_eq!(s.doc.cursor().pos, 6);
    assert_eq!(s.doc.selection(), None);
}

#[test]
fn word_and_line_deletions() {
    let mut s = session();
    type_into(&mut s, "hello brave new world");
    act(&mut s, Action::DeleteWordBack);
    assert_eq!(s.doc.text(), "hello brave new ");
    act(&mut s, Action::Undo);
    assert_eq!(s.doc.text(), "hello brave new world", "one undo");

    act(&mut s, Action::Move(Motion::DocEnd, false));
    act(&mut s, Action::DeleteToLineStart);
    assert_eq!(s.doc.text(), "");

    type_into(&mut s, "one two three");
    act(&mut s, Action::Move(Motion::DocStart, false));
    act(&mut s, Action::DeleteWordForward);
    assert_eq!(s.doc.text(), " two three");
}

#[test]
fn hemingway_mode_is_forward_only() {
    let mut s = session();
    type_into(&mut s, "first draft");
    s.hemingway = true;

    act(&mut s, Action::Backspace);
    act(&mut s, Action::Delete);
    act(&mut s, Action::DeleteWordBack);
    act(&mut s, Action::DeleteToLineStart);
    act(&mut s, Action::SelectAll);
    act(&mut s, Action::Cut);
    assert_eq!(s.doc.text(), "first draft", "nothing deletes");

    type_into(&mut s, " continues");
    assert!(s.doc.text().contains("continues"), "typing still works");

    s.hemingway = false;
    act(&mut s, Action::Backspace);
    assert!(!s.doc.text().contains("continues s"), "deletion restored");
}

#[test]
fn actions_report_what_the_app_does_next() {
    let mut s = session();
    assert!(matches!(act(&mut s, Action::Insert("a".to_string())), Handled::Edited));
    assert!(matches!(act(&mut s, Action::Move(Motion::Left, false)), Handled::Done));
    assert!(matches!(act(&mut s, Action::Paste(String::new())), Handled::Done));
    assert!(matches!(act(&mut s, Action::Cut), Handled::Done), "no selection, nothing cut");
    match act(&mut s, Action::Command { key: "k".to_string(), shift: true }) {
        Handled::Command { key, shift } => {
            assert_eq!(key, "k");
            assert!(shift);
        }
        other => panic!("expected a command, got {:?}", other),
    }
    assert!(matches!(act(&mut s, Action::Redo), Handled::Done), "nothing to redo");
}

#[test]
fn revert_is_disarmed_by_moving() {
    let mut s = session();
    type_into(&mut s, "x...");
    assert_eq!(s.doc.text(), "x\u{2026}");
    act(&mut s, Action::Move(Motion::Left, false));
    act(&mut s, Action::Move(Motion::Right, false));
    act(&mut s, Action::Backspace);
    assert_eq!(s.doc.text(), "x", "a plain backspace after moving");
}

#[test]
fn typed_quote_reverts_to_the_straight_quote() {
    let mut doc = Document::new();
    let pending = insert_with_typography(&mut doc, "\"");
    assert_eq!(doc.text(), "\u{201C}");
    let revert = pending.clone().expect("a revert is armed");
    assert_eq!(revert.inserted, 1);
    assert_eq!(revert.literal, "\"");
    backspace_with_revert(&mut doc, pending);
    assert_eq!(doc.text(), "\"");
    assert_eq!(doc.cursor().pos, 1);
}

#[test]
fn multi_char_insert_arms_nothing() {
    let mut doc = Document::new();
    let pending = insert_with_typography(&mut doc, "--");
    assert!(pending.is_none());
    assert_eq!(doc.text(), "--");
}

#[test]
fn notes_map_to_blocks_marks_and_jumps() {

    let source = "# Title\n\nAlpha para.\n\nBeta para.\n";
    let offsets = block_offsets(source);
    assert_eq!(offsets, vec![0, 9, 22]);
    // The pointer walks down to the Beta block and stops at the last one.
    let mut pointer = 0;
    pointer = pointer_step(pointer, 1, offsets.len());
    pointer = pointer_step(pointer, 1, offsets.len());
    assert_eq!(pointer, 2);
    assert_eq!(pointer_step(pointer, 1, offsets.len()), 2);
    assert_eq!(pointer_step(0, -1, offsets.len()), 0);

    let mut store = NoteStore::new(std::path::PathBuf::from("/tmp/.polaris/n.md"), Vec::new());
    let (start, end) = block_span(&offsets, 2, source.len());
    assert_eq!((start, end), (22, source.len()));
    let id = store.add(start, end, source[start..end].to_string(), "check this claim".into(), 0);
    assert_eq!(block_of(&offsets, store.notes()[0].start), 2, "anchored to the Beta block");

    let found = note_at_block(&offsets, store.notes(), 2);
    assert_eq!(found, Some((id.clone(), "check this claim".to_string())));
    assert_eq!(note_at_block(&offsets, store.notes(), 1), None);

    assert_eq!(note_marks(&offsets, store.notes(), true).len(), 1);
    assert!(note_marks(&offsets, store.notes(), false).is_empty());
    store.toggle_resolved(&id);
    assert!(note_marks(&offsets, store.notes(), true)[0].resolved);

    let blocks = noted_blocks(&offsets, store.notes());
    assert_eq!(note_jump(&blocks, 0, 1), Some(2));
    assert_eq!(note_jump(&blocks, 2, 1), Some(2), "wraps to the first");
    assert_eq!(note_jump(&[], 0, 1), None);
}

#[test]
fn noted_blocks_are_sorted_and_unique() {

    let offsets = vec![0usize, 10, 20, 30];
    let mut store = NoteStore::new(std::path::PathBuf::from("/tmp/.polaris/n.md"), Vec::new());
    for (start, body) in [(25usize, "c"), (5, "a"), (27, "c2"), (12, "b"), (31, "d")] {
        store.add(start, start + 1, "x".into(), body.into(), 0);
    }
    let blocks = noted_blocks(&offsets, store.notes());
    assert_eq!(blocks, vec![0, 1, 2, 3]);
    assert_eq!(note_jump(&blocks, 1, -1), Some(0));
    assert_eq!(note_jump(&blocks, 0, -1), Some(3), "wraps to the last");
    assert_eq!(note_jump(&blocks, 3, 1), Some(0));
}

#[test]
fn session_goal_sets_counts_and_clears() {
    let mut s = session();
    type_into(&mut s, "one two three");
    let words = s.doc.word_count();
    assert_eq!(words, 3);
    assert_eq!(goal_entry("5", words), GoalEntry::SetTo(Goal { target: 5, baseline: 3 }));
    // Non-numeric input is refused (the prompt stays open with a hint).
    assert_eq!(goal_entry("soon", words), GoalEntry::Invalid);
    // Empty clears.
    assert_eq!(goal_entry("", words), GoalEntry::Clear);
    assert_eq!(goal_entry("   ", words), GoalEntry::Clear);
}

#[test]
fn goal_input_reads_like_a_number() {
    assert_eq!(goal_entry(" +7 ", 0), GoalEntry::SetTo(Goal { target: 7, baseline: 0 }));
    assert_eq!(goal_entry("0", 0), GoalEntry::Invalid, "a goal is positive");
    assert_eq!(goal_entry("-3", 0), GoalEntry::Invalid);
    assert_eq!(goal_entry("+", 0), GoalEntry::Invalid);
    assert_eq!(goal_entry("12a", 0), GoalEntry::Invalid);
    assert_eq!(goal_entry("99999999999999999999999", 0), GoalEntry::Invalid, "too large");
    assert_eq!(goal_entry("18446744073709551615", 1), GoalEntry::SetTo(Goal { target: usize::MAX, baseline: 1 }));
}

#[test]
fn goal_progress_counts_words_since_it_was_set() {
    let goal = Goal { target: 5, baseline: 3 };
    assert_eq!(goal_progress(goal, 2), "session 0/5");
    assert_eq!(goal_progress(goal, 6), "session 3/5");
    assert_eq!(goal_progress(goal, 10), "session 7/5 \u{2713}");
}

#[test]
fn command_routing_reaches_app_keymap() {
    let mut s = session();
    let key = match act(&mut s, Action::Command { key: "y".to_string(), shift: false }) {
        Handled::Command { key, shift } => command_for(&key, shift),
        other => panic!("expected a command, got {:?}", other),
    };
    assert_eq!(key, Some(Command::Typewriter));
    assert_eq!(command_for("g", false), Some(Command::FocusDim));
    assert_eq!(command_for("f", false), Some(Command::Find));
    assert_eq!(command_for("m", true), Some(Command::Drafts));
    assert_eq!(command_for("m", false), Some(Command::Mark));
    assert_eq!(command_for("i", false), None, "import needs shift");
    assert_eq!(command_for("i", true), Some(Command::Import));
    assert_eq!(command_for("q", false), None);
}

fn mods(command: bool, alt: bool, shift: bool) -> ViewMods {
    ViewMods { command, alt, shift }
}

#[test]
fn view_keymap_turns_keys_into_actions() {
    let plain = mods(false, false, false);
    assert!(matches!(
        key_decision(ViewKey::Char("a".into()), plain, Some("a".into())),
        KeyDecision::Act(Action::Insert(t)) if t == "a"
    ));
    assert!(matches!(key_decision(ViewKey::Other, plain, Some("\u{7f}".into())), KeyDecision::Ignore));
    assert!(matches!(key_decision(ViewKey::Other, plain, Some(String::new())), KeyDecision::Ignore));
    assert!(matches!(key_decision(ViewKey::Other, plain, None), KeyDecision::Ignore));
    assert!(matches!(key_decision(ViewKey::Backspace, mods(false, true, false), None), KeyDecision::Act(Action::DeleteWordBack)));
    assert!(matches!(key_decision(ViewKey::Delete, plain, None), KeyDecision::Act(Action::Delete)));
    assert!(matches!(
        key_decision(ViewKey::Left, mods(false, true, true), None),
        KeyDecision::Act(Action::Move(Motion::WordLeft, true))
    ));
    assert!(matches!(key_decision(ViewKey::Up, mods(false, false, true), None), KeyDecision::VerticalMove { up: true, extend: true }));
    // Command shortcuts.
    let cmd = mods(true, false, false);
    assert!(matches!(key_decision(ViewKey::Char("z".into()), cmd, None), KeyDecision::Act(Action::Undo)));
    assert!(matches!(key_decision(ViewKey::Char("z".into()), mods(true, false, true), None), KeyDecision::Act(Action::Redo)));
    assert!(matches!(key_decision(ViewKey::Char("c".into()), cmd, None), KeyDecision::CopySelection));
    assert!(matches!(key_decision(ViewKey::Char("x".into()), cmd, None), KeyDecision::CutSelection));
    assert!(matches!(key_decision(ViewKey::Char("v".into()), cmd, None), KeyDecision::PasteClipboard));
    assert!(matches!(key_decision(ViewKey::Down, cmd, None), KeyDecision::Act(Action::Move(Motion::DocEnd, false))));
    assert!(matches!(key_decision(ViewKey::Backspace, cmd, None), KeyDecision::Act(Action::DeleteToLineStart)));
    assert!(matches!(
        key_decision(ViewKey::Char("k".into()), mods(true, false, true), None),
        KeyDecision::Act(Action::Command { key, shift: true }) if key == "k"
    ));
    assert!(matches!(key_decision(ViewKey::Enter, cmd, None), KeyDecision::Ignore));
}

fn runs(line: &str) -> Vec<(String, RunStyle)> {
    line_spans(line).into_iter().map(|r| (r.text, r.style)).collect()
}

#[test]
fn source_lines_are_styled_but_kept_whole() {
    assert_eq!(runs("## Heading"), vec![("## ".to_string(), RunStyle::Quiet), ("Heading".to_string(), RunStyle::Semibold)]);
    assert_eq!(runs("####### seven"), vec![("####### seven".to_string(), RunStyle::Plain)]);
    assert_eq!(runs("#tag"), vec![("#tag".to_string(), RunStyle::Plain)]);
    assert_eq!(runs("> quoted"), vec![("> ".to_string(), RunStyle::Quiet), ("quoted".to_string(), RunStyle::Italic)]);
    assert_eq!(runs("* item"), vec![("* ".to_string(), RunStyle::Quiet), ("item".to_string(), RunStyle::Plain)]);
    assert_eq!(runs("- é"), vec![("- ".to_string(), RunStyle::Quiet), ("é".to_string(), RunStyle::Plain)]);
    assert_eq!(runs(""), vec![(String::new(), RunStyle::Plain)]);
    for line in ["# a", "> b", "plain", "###### six", "-no space"] {
        let joined: String = line_spans(line).into_iter().map(|r| r.text).collect();
        assert_eq!(joined, line);
    }
}

#[test]
fn find_overlay_matches_and_cycles() {
    let mut s = session();
    type_into(&mut s, "alpha beta alpha gamma Alpha");
    let mut find = FindState::new();
    find.refresh(&s.doc, "alpha");
    assert_eq!(find.matches().len(), 3, "case-insensitive matches");

    let first = find.current();
    find.cycle(&mut s.doc, false);
    assert_eq!(find.current(), (first + 1) % 3);
    find.cycle(&mut s.doc, true);
    assert_eq!(find.current(), first);

    // Selection follows the current match in the document.
    let selected = s.doc.selected_text().map(|t| t.to_lowercase());
    assert_eq!(selected.as_deref(), Some("alpha"));

    // Backwards from the first wraps to the last.
    find.cycle(&mut s.doc, true);
    assert_eq!(find.current(), 2);
    assert_eq!(s.doc.selected_text().as_deref(), Some("Alpha"));
    // A narrower query keeps the current match only while it exists.
    find.refresh(&s.doc, "gamma");
    assert_eq!((find.matches().len(), find.current()), (1, 0));
}
