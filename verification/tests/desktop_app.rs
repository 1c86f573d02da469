use polaris::desktop::app::{
    app_step, apply_review, autosave_tick, restore_draft, toggle_preview, AppAction, AppMessage, AppState, ViewMode,
};
use polaris::desktop::{Command, EditSession};
use polaris::desktop::app::{Hint, Overlay};
use polaris::document::{AutosaveTimer, Document};
use polaris::drafts::review::{Decision, Review};
use polaris::drafts::store::{DraftStore, Kind};
use std::path::PathBuf;

fn session_with(text: &str) -> EditSession {
    EditSession::new(Document::from_str(text))
}

fn store() -> Option<DraftStore> {
    Some(DraftStore::new(PathBuf::from("/tmp/.polaris/doc.md"), Vec::new()))
}

fn state(text: &str, path: Option<&str>) -> AppState {
    let doc = match path {
        Some(p) => Document::opened(text, PathBuf::from(p)),
        None => Document::from_str(text),
    };
    AppState {
        session: EditSession::new(doc),
        store: if path.is_some() { store() } else { None },
        autosave: AutosaveTimer::new(),
        view_mode: ViewMode::Write,
        preview_offsets: Vec::new(),
        preview_pointer: 0,
        notes: None,
        drafts_selected: 0,
        draft_view: None,
        review: None,
        review_index: 0,
        close_pending: false,
        dark: false,
        typewriter: false,
        focus_dim: false,
        zen: false,
        publishing: false,
    }
}

#[test]
fn restore_snapshots_current_text_then_one_undo_brings_it_back() {
    let mut s = session_with("current words");
    let mut st = store();
    let snap = restore_draft(&mut s, &mut st, "older draft", 42).expect("a guard snapshot");
    assert_eq!(snap.kind, Kind::Auto);
    assert_eq!(snap.created_ms, 42);
    assert_eq!(snap.words, 2);
    assert_eq!(st.as_ref().unwrap().entries().len(), 1);
    assert_eq!(s.doc.text(), "older draft");
    assert!(s.doc.undo());
    assert_eq!(s.doc.text(), "current words");
    assert!(s.doc.redo());
    assert_eq!(s.doc.text(), "older draft");
}

#[test]
fn restore_of_unchanged_text_adds_no_second_snapshot() {
    let mut s = session_with("same");
    let mut st = store();
    assert!(restore_draft(&mut s, &mut st, "other", 1).is_some());
    // The text is now "other"; restoring "other" snapshots it once, then
    // restoring again finds the newest entry already holding it.
    assert!(restore_draft(&mut s, &mut st, "other", 2).is_some());
    assert!(restore_draft(&mut s, &mut st, "other", 3).is_none());
    assert_eq!(st.as_ref().unwrap().entries().len(), 2);
}

#[test]
fn restore_without_a_store_still_replaces() {
    let mut s = session_with("");
    let mut st: Option<DraftStore> = None;
    assert!(restore_draft(&mut s, &mut st, "fresh", 5).is_none());
    assert_eq!(s.doc.text(), "fresh");
    assert!(s.doc.undo());
    assert_eq!(s.doc.text(), "");
}

#[test]
fn applying_a_review_takes_accepted_changes_as_one_undo() {
    let mut s = session_with("the cat sat");
    let mut st = store();
    let mut review = Review::from_texts("the cat sat", "the dog sat");
    review.set_all(Decision::Accepted);
    let snap = apply_review(&mut s, &mut st, &review, 7);
    assert!(snap.is_some());
    assert_eq!(s.doc.text(), "the dog sat");
    assert!(s.doc.undo());
    assert_eq!(s.doc.text(), "the cat sat");
}

#[test]
fn app_restore_leaves_the_draft_view_and_reports_the_snapshot() {
    let mut s = state("now", Some("/tmp/doc.md"));
    s.view_mode = ViewMode::DraftView;
    s.draft_view = Some("then".to_string());
    match app_step(&mut s, AppMessage::DraftsRestore, 100, 5000) {
        AppAction::Restored { snapshot } => assert_eq!(snapshot.unwrap().created_ms, 5000),
        _ => panic!("expected Restored"),
    }
    assert_eq!(s.view_mode, ViewMode::Write);
    assert!(s.draft_view.is_none());
    assert_eq!(s.session.doc.text(), "then");
    // Nothing more to restore.
    assert!(matches!(app_step(&mut s, AppMessage::DraftsRestore, 101, 5001), AppAction::Nothing));
}

#[test]
fn app_review_apply_counts_accepted_changes() {
    let mut s = state("a b c", Some("/tmp/doc.md"));
    s.view_mode = ViewMode::Review;
    s.review = Some(Review::from_texts("a b c", "a x c"));
    assert!(matches!(
        app_step(&mut s, AppMessage::ReviewDecide(Decision::Accepted), 1, 1),
        AppAction::SnapReview
    ));
    match app_step(&mut s, AppMessage::ReviewApply, 2, 2) {
        AppAction::Applied { accepted, snapshot } => {
            assert_eq!(accepted, 1);
            assert!(snapshot.is_some());
        }
        _ => panic!("expected Applied"),
    }
    assert_eq!(s.session.doc.text(), "a x c");
    assert!(s.review.is_none());
}

#[test]
fn autosave_waits_for_the_debounce_then_saves_and_snapshots() {
    let mut s = state("text", Some("/tmp/doc.md"));
    s.session.doc.insert_str("more ");
    s.autosave.note_edit(1_000);
    assert!(matches!(app_step(&mut s, AppMessage::AutosaveTick, 1_500, 10), AppAction::Nothing));
    match app_step(&mut s, AppMessage::AutosaveTick, 2_000, 10) {
        AppAction::Save { snapshot } => assert!(snapshot.is_some()),
        _ => panic!("expected Save"),
    }
    assert_eq!(s.store.as_ref().unwrap().entries().len(), 1);
}

#[test]
fn autosave_does_nothing_for_an_untitled_document() {
    let mut s = state("", None);
    s.session.doc.insert_str("draft");
    s.autosave.note_edit(0);
    assert!(matches!(app_step(&mut s, AppMessage::AutosaveTick, 5_000, 5_000), AppAction::Nothing));
}

#[test]
fn preview_pointer_moves_only_in_preview_with_blocks() {
    let mut s = state("x", None);
    s.preview_offsets = vec![0, 5, 9];
    assert!(matches!(app_step(&mut s, AppMessage::PreviewPointer(1), 0, 0), AppAction::Nothing));
    assert_eq!(s.preview_pointer, 0);
    s.view_mode = ViewMode::Preview;
    assert!(matches!(app_step(&mut s, AppMessage::PreviewPointer(5), 0, 0), AppAction::SnapPreview));
    assert_eq!(s.preview_pointer, 2);
    app_step(&mut s, AppMessage::PreviewPointer(-9), 0, 0);
    assert_eq!(s.preview_pointer, 0);
    s.preview_offsets = Vec::new();
    assert!(matches!(app_step(&mut s, AppMessage::PreviewPointer(1), 0, 0), AppAction::Nothing));
}

#[test]
fn closing_an_untitled_document_with_words_warns_once() {
    let mut s = state("unsaved words", None);
    assert!(matches!(app_step(&mut s, AppMessage::CloseRequested, 0, 0), AppAction::AskName));
    assert!(s.close_pending);
    assert!(matches!(app_step(&mut s, AppMessage::CloseRequested, 0, 0), AppAction::Close));
    let mut blank = state("  \n", None);
    assert!(matches!(app_step(&mut blank, AppMessage::CloseRequested, 0, 0), AppAction::Close));
    let mut dirty = state("saved", Some("/tmp/doc.md"));
    dirty.session.doc.insert_str("x");
    assert!(matches!(app_step(&mut dirty, AppMessage::CloseRequested, 0, 0), AppAction::SaveThenClose));
}

#[test]
fn drafts_back_steps_out_one_level() {
    let mut s = state("x", None);
    s.view_mode = ViewMode::DraftView;
    s.draft_view = Some("d".to_string());
    app_step(&mut s, AppMessage::DraftsBack, 0, 0);
    assert_eq!(s.view_mode, ViewMode::Drafts);
    assert!(s.draft_view.is_none());
    app_step(&mut s, AppMessage::DraftsBack, 0, 0);
    assert_eq!(s.view_mode, ViewMode::Write);
}

#[test]
fn autosave_saves_without_a_snapshot_when_one_is_recent() {
    let mut s = state("text", Some("/tmp/doc.md"));
    s.session.doc.insert_str("a ");
    s.autosave.note_edit(0);
    assert!(matches!(autosave_tick(&mut s, 1_000, 100), AppAction::Save { snapshot: Some(_) }));
    s.session.doc.insert_str("b ");
    s.autosave.note_edit(1_000);
    // The last auto snapshot is only a moment old: save, but no new snapshot.
    assert!(matches!(autosave_tick(&mut s, 2_000, 200), AppAction::Save { snapshot: None }));
    assert_eq!(s.store.as_ref().unwrap().entries().len(), 1);
}

#[test]
fn preview_round_trip_puts_the_caret_at_the_pointed_block() {
    let text = "# Title\n\nfirst para\n\nsecond para\n";
    let mut s = state(text, None);
    s.session.doc.set_cursor_pos(text.find("second").unwrap() + 3, false);
    match toggle_preview(&mut s) {
        AppAction::EnteredPreview { save_notes } => assert!(!save_notes),
        _ => panic!("expected EnteredPreview"),
    }
    assert_eq!(s.view_mode, ViewMode::Preview);
    assert_eq!(s.preview_offsets.len(), 3);
    assert_eq!(s.preview_pointer, 2);
    app_step(&mut s, AppMessage::PreviewPointer(-1), 0, 0);
    assert!(matches!(toggle_preview(&mut s), AppAction::Nothing));
    assert_eq!(s.view_mode, ViewMode::Write);
    assert_eq!(s.session.doc.cursor().pos, text.find("first").unwrap());
    // Inert outside writing and the preview.
    s.view_mode = ViewMode::Drafts;
    assert!(matches!(toggle_preview(&mut s), AppAction::Nothing));
    assert_eq!(s.view_mode, ViewMode::Drafts);
}

#[test]
fn rename_on_untitled_opens_save_as() {
    let mut s = state("", None);
    assert!(matches!(
        app_step(&mut s, AppMessage::Command(Command::Rename), 0, 0),
        AppAction::OpenOverlay(Overlay::SaveAs)
    ));
    let mut named = state("", Some("/tmp/doc.md"));
    assert!(matches!(
        app_step(&mut named, AppMessage::Command(Command::Rename), 0, 0),
        AppAction::OpenOverlay(Overlay::Rename)
    ));
}

#[test]
fn theme_toggle_flips_and_works_in_preview_too() {
    let mut s = state("", None);
    let initial = s.dark;
    app_step(&mut s, AppMessage::Command(Command::ToggleTheme), 0, 0);
    assert_eq!(s.dark, !initial);
    app_step(&mut s, AppMessage::TogglePreview, 0, 0);
    assert_eq!(s.view_mode, ViewMode::Preview);
    match app_step(&mut s, AppMessage::Command(Command::ToggleTheme), 0, 0) {
        AppAction::ThemeChanged { dark } => assert_eq!(dark, initial),
        _ => panic!("expected ThemeChanged"),
    }
    assert_eq!(s.dark, initial);
}

#[test]
fn publish_requires_a_saved_file() {
    let mut s = state("", None);
    match app_step(&mut s, AppMessage::Command(Command::Publish), 0, 0) {
        AppAction::Hint(h) => {
            assert_eq!(h, Hint::SaveForPublishing);
            assert!(h.text().contains("save"));
        }
        _ => panic!("expected a hint, not a prompt"),
    }
    let mut named = state("x", Some("/tmp/doc.md"));
    assert!(matches!(app_step(&mut named, AppMessage::Command(Command::Publish), 0, 0), AppAction::ChooseTarget));
    named.publishing = true;
    assert!(matches!(app_step(&mut named, AppMessage::Command(Command::Publish), 0, 0), AppAction::Nothing));
}

#[test]
fn marking_untitled_hints_instead() {
    let mut s = state("", None);
    match app_step(&mut s, AppMessage::Command(Command::Mark), 0, 0) {
        AppAction::Hint(h) => assert!(h.text().contains("save")),
        _ => panic!("expected a hint, not a prompt"),
    }
    let mut named = state("x", Some("/tmp/doc.md"));
    assert!(matches!(
        app_step(&mut named, AppMessage::Command(Command::Mark), 0, 0),
        AppAction::OpenOverlay(Overlay::Mark)
    ));
    app_step(&mut named, AppMessage::Command(Command::Drafts), 0, 0);
    assert_eq!(named.view_mode, ViewMode::Drafts);
}

#[test]
fn writing_mode_toggles_flip_their_flags() {
    let mut s = state("", None);
    app_step(&mut s, AppMessage::Command(Command::Hemingway), 0, 0);
    assert!(s.session.hemingway);
    app_step(&mut s, AppMessage::Command(Command::Zen), 0, 0);
    app_step(&mut s, AppMessage::Command(Command::Typewriter), 0, 0);
    app_step(&mut s, AppMessage::Command(Command::FocusDim), 0, 0);
    assert!(s.zen && s.typewriter && s.focus_dim);
    app_step(&mut s, AppMessage::Command(Command::Hemingway), 0, 0);
    assert!(!s.session.hemingway);
}
