//! The desktop app's decisions between messages: what a message does to
//! the editing session, the snapshot history, the view mode and the
//! pointers, and what it leaves the front-end to do (save, close, ask for a
//! name, scroll, write a snapshot out). Replacing the whole text (restoring
//! a draft, applying a review) first records an auto snapshot of the
//! current text, so no words are lost, and is one undo group.

use vstd::prelude::*;
use crate::document::{DocV, AutosaveTimer, DEBOUNCE_MS, doc_wf, insert_str_spec, select_all_spec, doc_undo_spec,
    remove_range_spec, insert_at_cursor_spec, with_history, caret};
use crate::history::{commit_spec, closed_groups, unapply_all, apply, invert, OpV};
use crate::cursor::selection_of;
use crate::desktop::session::{EditSession, SessionV};
use crate::desktop::keymap::Command;
use crate::drafts::store::{DraftStore, Entry, EntryV, Kind, skips, object_of, new_entry, auto_due};
use crate::drafts::review::{Review, ItemV, Decision, applied_of, changes_of, decide_nth, decide_all, accepted_in};
use crate::preview_notes::pointer_step;
use crate::lines::{trim, is_blank};
use crate::text::chars_of;
use crate::document::{move_spec, clamp};
use crate::drafts::notes::{NoteStore, NoteV, reanchored_all, reanchor_changes};
use crate::preview_notes::{block_of, block_of_spec};
use crate::reading::{block_offsets, reading_spec};
use crate::tui::buffer::{blen, first_at_or_past, byte_len_of, prefix_byte_len, chars_before_byte};
use vstd::utf8::encode_utf8;
use std::path::PathBuf;

verus! {

/// The text replaced wholesale: everything selected, then `t` typed over it.
pub open spec fn replace_all_spec(d: DocV, t: Seq<char>) -> DocV {
    insert_str_spec(select_all_spec(d), t)
}

/// Replacing the whole text with a non-empty `t` leaves `t`, and one undo
/// gives the text before back.
pub proof fn lemma_replace_all_is_one_undo(d: DocV, t: Seq<char>)
    requires
        doc_wf(d),
        d.text.len() <= usize::MAX,
        t.len() > 0,
    ensures
        replace_all_spec(d, t).text == t,
        doc_undo_spec(replace_all_spec(d, t)) is Some,
        (doc_undo_spec(replace_all_spec(d, t))->0).text == d.text,
{
    let d1 = select_all_spec(d);
    let n = d.text.len();
    let h1 = commit_spec(d.history);
    assert(h1.open is None);
    if n > 0 {
        assert(selection_of(d1.cursor) == Some((0nat, n)));
        let d2 = remove_range_spec(with_history(d1, commit_spec(d1.history)), 0, n);
        assert(commit_spec(d1.history) == h1);
        assert(d2.text =~= Seq::<char>::empty());
        assert(d2.cursor == caret(0));
        let r = insert_at_cursor_spec(d2, t, true);
        assert(r == replace_all_spec(d, t));
        assert(r.text =~= t);
        let g = r.history.open->0;
        assert(g.ops =~= seq![OpV::Rem(0, d.text.subrange(0, n as int)), OpV::Ins(0, t)]);
        let c = closed_groups(r.history);
        assert(c.last() == g);
        assert(g.ops.last() == OpV::Ins(0, t));
        assert(g.ops.drop_last() =~= seq![OpV::Rem(0, d.text.subrange(0, n as int))]);
        let t1 = apply(t, invert(OpV::Ins(0, t)));
        assert(t1 =~= Seq::<char>::empty());
        assert(seq![OpV::Rem(0, d.text.subrange(0, n as int))].drop_last() =~= Seq::<OpV>::empty());
        let t2 = apply(t1, invert(OpV::Rem(0, d.text.subrange(0, n as int))));
        assert(t2 =~= d.text);
        assert(unapply_all(t2, Seq::<OpV>::empty()) == t2);
        assert(unapply_all(t1, seq![OpV::Rem(0, d.text.subrange(0, n as int))]) == t2);
        assert(unapply_all(t, g.ops) == t2);
    } else {
        assert(selection_of(d1.cursor) is None);
        let r = insert_at_cursor_spec(d1, t, false);
        assert(r == replace_all_spec(d, t));
        assert(r.text =~= t);
        let g = r.history.open->0;
        assert(g.ops =~= seq![OpV::Ins(0, t)]);
        assert(seq![OpV::Ins(0, t)].drop_last() =~= Seq::<OpV>::empty());
        let t1 = apply(t, invert(OpV::Ins(0, t)));
        assert(t1 =~= d.text);
        assert(unapply_all(t1, Seq::<OpV>::empty()) == t1);
        assert(g.ops.last() == OpV::Ins(0, t));
        assert(unapply_all(t, g.ops) == t1);
    }
}

/// The history after an auto snapshot of `text` at `now_ms`: unchanged when
/// the last entry already holds that text, else one new entry on top.
pub open spec fn auto_snapshot_spec(es: Seq<EntryV>, text: Seq<char>, now_ms: u64) -> Seq<EntryV> {
    if skips(es, Kind::Auto, object_of(text)) {
        es
    } else {
        es.push(new_entry(text, Kind::Auto, None, now_ms))
    }
}

/// `after` is `before` with an auto snapshot of `text` recorded, and `snap`
/// is the entry it added; with no store (an untitled document) nothing is
/// recorded.
pub open spec fn snapshotted(
    before: Option<DraftStore>,
    after: Option<DraftStore>,
    text: Seq<char>,
    now_ms: u64,
    snap: Option<Entry>,
) -> bool {
    match before {
        None => after is None && snap is None,
        Some(b) => {
            &&& after matches Some(a) && a.root_value() == b.root_value() && a@ == auto_snapshot_spec(
                b@,
                text,
                now_ms,
            )
            &&& skips(b@, Kind::Auto, object_of(text)) ==> snap is None
            &&& !skips(b@, Kind::Auto, object_of(text)) ==> (snap matches Some(e) && e@ == new_entry(
                text,
                Kind::Auto,
                None,
                now_ms,
            ))
        },
    }
}

/// Replace the whole text with `text` as one undo group, after recording an
/// auto snapshot of the current text (at `now_ms`) so that nothing is lost.
/// Returns the snapshot entry, if one was added, for the caller to write out.
fn replace_recoverably(session: &mut EditSession, store: &mut Option<DraftStore>, text: &str, now_ms: u64) -> (snap: Option<Entry>)
    requires
        old(session).doc.wf(),
    ensures
        final(session).doc.wf(),
        final(session)@ == (SessionV { doc: replace_all_spec(old(session)@.doc, text@), pending: None, ..old(session)@ }),
        final(session).doc.path_value() == old(session).doc.path_value(),
        old(session)@.doc.text.len() <= usize::MAX,
        snapshotted(*old(store), *final(store), old(session)@.doc.text, now_ms, snap),
{
    let current = session.doc.text();
    // The text's length is a usize, which the undo law relies on.
    let _len = session.doc.buffer().len_chars();
    let snap = match store {
        Some(s) => s.snapshot(current.as_str(), Kind::Auto, None, now_ms),
        None => None,
    };
    session.doc.select_all();
    session.doc.insert_str(text);
    session.pending_revert = None;
    snap
}

/// Restore a viewed draft: the current text is auto-snapshotted first (a
/// restore never loses words), then replaced by `draft_text` as one undo
/// group, so one undo brings the text back; an armed revert is dropped.
pub fn restore_draft(session: &mut EditSession, store: &mut Option<DraftStore>, draft_text: &str, now_ms: u64) -> (snap: Option<Entry>)
    requires
        old(session).doc.wf(),
    ensures
        final(session).doc.wf(),
        final(session)@ == (SessionV { doc: replace_all_spec(old(session)@.doc, draft_text@), pending: None, ..old(session)@ }),
        final(session).doc.path_value() == old(session).doc.path_value(),
        snapshotted(*old(store), *final(store), old(session)@.doc.text, now_ms, snap),
        draft_text@.len() > 0 ==> final(session)@.doc.text == draft_text@,
        draft_text@.len() > 0 ==> doc_undo_spec(final(session)@.doc) is Some
            && (doc_undo_spec(final(session)@.doc)->0).text == old(session)@.doc.text,
{
    let snap = replace_recoverably(session, store, draft_text, now_ms);
    proof {
        if draft_text@.len() > 0 {
            lemma_replace_all_is_one_undo(old(session)@.doc, draft_text@);
        }
    }
    snap
}

/// Apply a review: the current text is auto-snapshotted first, then replaced
/// by the review's result (accepted changes take the incoming text) as one
/// undo group; an armed revert is dropped.
pub fn apply_review(session: &mut EditSession, store: &mut Option<DraftStore>, review: &Review, now_ms: u64) -> (snap: Option<Entry>)
    requires
        old(session).doc.wf(),
    ensures
        final(session).doc.wf(),
        final(session)@ == (SessionV { doc: replace_all_spec(old(session)@.doc, applied_of(review@)), pending: None, ..old(session)@ }),
        final(session).doc.path_value() == old(session).doc.path_value(),
        snapshotted(*old(store), *final(store), old(session)@.doc.text, now_ms, snap),
        applied_of(review@).len() > 0 ==> final(session)@.doc.text == applied_of(review@),
        applied_of(review@).len() > 0 ==> doc_undo_spec(final(session)@.doc) is Some
            && (doc_undo_spec(final(session)@.doc)->0).text == old(session)@.doc.text,
{
    let result = review.applied();
    let snap = replace_recoverably(session, store, result.as_str(), now_ms);
    proof {
        if result@.len() > 0 {
            lemma_replace_all_is_one_undo(old(session)@.doc, result@);
        }
    }
    snap
}

/// The text a restore or a review apply puts in place.
pub open spec fn replacement_of(s: AppV, m: AppMessage) -> Seq<char> {
    match m {
        AppMessage::DraftsRestore => s.draft_view->0,
        _ => applied_of(s.review->0),
    }
}

/// Restoring a draft, or applying a review, never loses words: the older
/// snapshots stay, and with a snapshot history its newest entry afterwards
/// holds the text as it was before; a non-empty replacement leaves exactly
/// that text, and one undo brings the old text back.
pub proof fn lemma_replacing_loses_no_words(s: AppV, m: AppMessage, now_ms: u64, unix_ms: u64)
    requires
        doc_wf(s.session.doc),
        s.session.doc.text.len() <= usize::MAX,
        m is DraftsRestore ==> s.draft_view is Some,
        m is ReviewApply ==> s.review is Some,
        m is DraftsRestore || m is ReviewApply,
    ensures
        ({
            let s2 = app_step_spec(s, m, now_ms, unix_ms).0;
            let before = entries_of(s.store);
            let after = entries_of(s2.store);
            &&& after.take(before.len() as int) == before
            &&& s.store is Some ==> after.len() > 0 && after.last().object == object_of(s.session.doc.text)
            &&& replacement_of(s, m).len() > 0 ==> s2.session.doc.text == replacement_of(s, m)
            &&& replacement_of(s, m).len() > 0 ==> doc_undo_spec(s2.session.doc) is Some
                && (doc_undo_spec(s2.session.doc)->0).text == s.session.doc.text
        }),
{
    let t = replacement_of(s, m);
    let before = entries_of(s.store);
    let s2 = app_step_spec(s, m, now_ms, unix_ms).0;
    assert(s2.session.doc == replace_all_spec(s.session.doc, t));
    if t.len() > 0 {
        lemma_replace_all_is_one_undo(s.session.doc, t);
    }
    match s.store {
        Some((root, es)) => {
            assert(entries_of(s2.store) == auto_snapshot_spec(es, s.session.doc.text, unix_ms));
            assert(auto_snapshot_spec(es, s.session.doc.text, unix_ms).take(es.len() as int) =~= es);
        },
        None => {
            assert(entries_of(s2.store) =~= Seq::<EntryV>::empty());
        },
    }
}

/// Which view the window shows.
#[derive(Debug, Clone, Copy, PartialEq, Eq, Structural)]
pub enum ViewMode {
    Write,
    Preview,
    Drafts,
    DraftView,
    Review,
}

/// The app's state that its decisions read and change. Overlays, the look
/// of the preview and publishing stay with the front-end.
pub struct AppState {
    pub session: EditSession,
    /// The document's snapshot history (none while untitled).
    pub store: Option<DraftStore>,
    pub autosave: AutosaveTimer,
    pub view_mode: ViewMode,
    /// Where each preview block starts in the source (bytes), captured on
    /// entering the preview, and the block the reading pointer marks.
    pub preview_offsets: Vec<usize>,
    pub preview_pointer: usize,
    /// The document's inline notes (none while untitled).
    pub notes: Option<NoteStore>,
    /// Selection in the drafts browser (0 = newest).
    pub drafts_selected: usize,
    /// The text of the draft being viewed, if any.
    pub draft_view: Option<String>,
    /// The review under way and the change the cursor is on.
    pub review: Option<Review>,
    pub review_index: usize,
    /// An untitled document got its one close warning.
    pub close_pending: bool,
    /// The dark theme is on.
    pub dark: bool,
    /// Writing modes: typewriter scrolling, focus dimming, zen chrome.
    pub typewriter: bool,
    pub focus_dim: bool,
    pub zen: bool,
    /// A publish is under way.
    pub publishing: bool,
}

/// The app's state as values.
pub struct AppV {
    pub session: SessionV,
    pub path: Option<PathBuf>,
    pub store: Option<(PathBuf, Seq<EntryV>)>,
    pub last_edit: Option<u64>,
    pub view_mode: ViewMode,
    pub preview_offsets: Seq<usize>,
    pub preview_pointer: usize,
    pub notes: Option<(PathBuf, Seq<NoteV>)>,
    pub drafts_selected: usize,
    pub draft_view: Option<Seq<char>>,
    pub review: Option<Seq<ItemV>>,
    pub review_index: usize,
    pub close_pending: bool,
    pub dark: bool,
    pub typewriter: bool,
    pub focus_dim: bool,
    pub zen: bool,
    pub publishing: bool,
}

impl View for AppState {
    type V = AppV;

    open spec fn view(&self) -> AppV {
        AppV {
            session: self.session@,
            path: self.session.doc.path_value(),
            store: match self.store {
                Some(st) => Some((st.root_value(), st@)),
                None => None,
            },
            last_edit: self.autosave.last_edit(),
            view_mode: self.view_mode,
            preview_offsets: self.preview_offsets@,
            preview_pointer: self.preview_pointer,
            notes: match self.notes {
                Some(ns) => Some((ns.root_value(), ns@)),
                None => None,
            },
            drafts_selected: self.drafts_selected,
            draft_view: match self.draft_view {
                Some(t) => Some(t@),
                None => None,
            },
            review: match self.review {
                Some(r) => Some(r@),
                None => None,
            },
            review_index: self.review_index,
            close_pending: self.close_pending,
            dark: self.dark,
            typewriter: self.typewriter,
            focus_dim: self.focus_dim,
            zen: self.zen,
            publishing: self.publishing,
        }
    }
}

/// What the app is told.
pub enum AppMessage {
    /// Switch between writing and the preview.
    TogglePreview,
    /// Move the preview's reading pointer by this many blocks.
    PreviewPointer(i32),
    /// The autosave timer ticked.
    AutosaveTick,
    /// Move the drafts browser's selection.
    DraftsNav(i32),
    /// Leave the draft being viewed (or the drafts browser).
    DraftsBack,
    /// Restore the draft being viewed.
    DraftsRestore,
    /// Move to another change of the review.
    ReviewNav(i32),
    /// Decide the current change (and move on to the next).
    ReviewDecide(Decision),
    /// Decide every change.
    ReviewDecideAll(Decision),
    /// Adopt the review's result.
    ReviewApply,
    ReviewCancel,
    /// The window is asked to close.
    CloseRequested,
    /// A shortcut of the app's keymap.
    Command(Command),
}

/// A prompt the chrome opens.
#[derive(Debug, Clone, Copy, PartialEq, Eq, Structural)]
pub enum Overlay {
    SaveAs,
    Rename,
    Mark,
    Find,
    Goal,
    Import,
}

/// A hint shown in the chrome when a command needs a saved file.
#[derive(Debug, Clone, Copy, PartialEq, Eq, Structural)]
pub enum Hint {
    /// Drafts are kept beside the file, so there are none before it is saved.
    SaveForDrafts,
    SaveForPublishing,
}

pub open spec fn hint_text(h: Hint) -> Seq<char> {
    match h {
        Hint::SaveForDrafts => "save the file to start keeping drafts"@,
        Hint::SaveForPublishing => "save before publishing (Cmd+S)"@,
    }
}

impl Hint {
    /// The hint's words.
    pub fn text(&self) -> (r: String)
        ensures
            r@ == hint_text(*self),
    {
        match self {
            Hint::SaveForDrafts => String::from_str("save the file to start keeping drafts"),
            Hint::SaveForPublishing => String::from_str("save before publishing (Cmd+S)"),
        }
    }
}

/// What is left for the front-end to do.
pub enum AppAction {
    Nothing,
    /// The preview opened: scroll it to the pointer, and save the notes
    /// when re-anchoring them changed any.
    EnteredPreview { save_notes: bool },
    /// Scroll the preview to the pointer.
    SnapPreview,
    /// Scroll the drafts list to the selection.
    SnapDrafts,
    /// Scroll the review to the current change.
    SnapReview,
    /// Save the document; write out the auto snapshot, if one was taken.
    Save { snapshot: Option<Entry> },
    /// The draft was restored; write out the guard snapshot, if one was taken.
    Restored { snapshot: Option<Entry> },
    /// The review was applied with this many accepted changes; write out the
    /// guard snapshot, if one was taken.
    Applied { snapshot: Option<Entry>, accepted: usize },
    /// Save, then close the window unless the save failed.
    SaveThenClose,
    Close,
    /// Ask for a name (save as), warning that closing again discards.
    AskName,
    /// Open a prompt.
    OpenOverlay(Overlay),
    /// Show a hint.
    Hint(Hint),
    /// The theme changed; remember the choice.
    ThemeChanged { dark: bool },
    /// Save, then offer the configured publish targets.
    ChooseTarget,
}

pub enum ActionV {
    Nothing,
    EnteredPreview { save_notes: bool },
    SnapPreview,
    SnapDrafts,
    SnapReview,
    Save { snapshot: Option<EntryV> },
    Restored { snapshot: Option<EntryV> },
    Applied { snapshot: Option<EntryV>, accepted: nat },
    SaveThenClose,
    Close,
    AskName,
    OpenOverlay(Overlay),
    Hint(Hint),
    ThemeChanged { dark: bool },
    ChooseTarget,
}

pub open spec fn entry_opt_view(e: Option<Entry>) -> Option<EntryV> {
    match e {
        Some(e) => Some(e@),
        None => None,
    }
}

impl View for AppAction {
    type V = ActionV;

    open spec fn view(&self) -> ActionV {
        match self {
            AppAction::Nothing => ActionV::Nothing,
            AppAction::EnteredPreview { save_notes } => ActionV::EnteredPreview { save_notes: *save_notes },
            AppAction::SnapPreview => ActionV::SnapPreview,
            AppAction::SnapDrafts => ActionV::SnapDrafts,
            AppAction::SnapReview => ActionV::SnapReview,
            AppAction::Save { snapshot } => ActionV::Save { snapshot: entry_opt_view(*snapshot) },
            AppAction::Restored { snapshot } => ActionV::Restored { snapshot: entry_opt_view(*snapshot) },
            AppAction::Applied { snapshot, accepted } => ActionV::Applied {
                snapshot: entry_opt_view(*snapshot),
                accepted: *accepted as nat,
            },
            AppAction::SaveThenClose => ActionV::SaveThenClose,
            AppAction::Close => ActionV::Close,
            AppAction::AskName => ActionV::AskName,
            AppAction::OpenOverlay(o) => ActionV::OpenOverlay(*o),
            AppAction::Hint(h) => ActionV::Hint(*h),
            AppAction::ThemeChanged { dark } => ActionV::ThemeChanged { dark: *dark },
            AppAction::ChooseTarget => ActionV::ChooseTarget,
        }
    }
}

/// `p + delta` kept within `[0, count - 1]`.
pub open spec fn clamped_step(p: int, delta: int, count: int) -> int {
    if p + delta < 0 {
        0
    } else if p + delta > count - 1 {
        count - 1
    } else {
        p + delta
    }
}

/// The debounce window has passed since the last unsaved edit.
pub open spec fn debounced(last_edit: Option<u64>, now_ms: u64) -> bool {
    match last_edit {
        Some(t) => now_ms >= t && now_ms - t >= DEBOUNCE_MS,
        None => false,
    }
}

/// The entries in the store (none without one).
pub open spec fn entries_of(store: Option<(PathBuf, Seq<EntryV>)>) -> Seq<EntryV> {
    match store {
        Some((_, es)) => es,
        None => Seq::empty(),
    }
}

/// The store after an auto snapshot of `text`, and the entry it added.
pub open spec fn store_snapshot_spec(store: Option<(PathBuf, Seq<EntryV>)>, text: Seq<char>, now_ms: u64) -> (
    Option<(PathBuf, Seq<EntryV>)>,
    Option<EntryV>,
) {
    match store {
        Some((root, es)) => (
            Some((root, auto_snapshot_spec(es, text, now_ms))),
            if skips(es, Kind::Auto, object_of(text)) {
                None
            } else {
                Some(new_entry(text, Kind::Auto, None, now_ms))
            },
        ),
        None => (None, None),
    }
}

/// The state after the whole text is replaced by `t` (restore, review
/// apply): guard snapshot at `unix_ms`, one undo group, revert disarmed, the
/// edit noted at `now_ms`, the close warning re-armed, back to writing.
pub open spec fn replaced_spec(s: AppV, t: Seq<char>, now_ms: u64, unix_ms: u64) -> (AppV, Option<EntryV>) {
    let (store, snap) = store_snapshot_spec(s.store, s.session.doc.text, unix_ms);
    (
        AppV {
            session: SessionV { doc: replace_all_spec(s.session.doc, t), pending: None, ..s.session },
            store: store,
            last_edit: Some(now_ms),
            close_pending: false,
            view_mode: ViewMode::Write,
            ..s
        },
        snap,
    )
}

/// Where each block of the preview of `t` starts (bytes).
pub open spec fn preview_offsets_spec(t: Seq<char>) -> Seq<usize> {
    Seq::new(reading_spec(t).len(), |i: int| reading_spec(t)[i].source as usize)
}

/// The char that byte `b` of `t` falls in (the end for `b` past the text),
/// as an index.
pub open spec fn char_of_byte(t: Seq<char>, b: int) -> int {
    if b >= blen(t) {
        t.len() as int
    } else {
        first_at_or_past(t, b + 1, 0) - 1
    }
}

/// Entering the preview: the block offsets of the text, the pointer on the
/// block holding the caret, and the notes re-anchored to the text (with
/// whether any changed).
pub open spec fn enter_preview_spec(s: AppV) -> (AppV, ActionV) {
    let t = s.session.doc.text;
    let offsets = preview_offsets_spec(t);
    let caret = blen(t.take(s.session.doc.cursor.pos as int));
    let bytes = encode_utf8(t);
    let (notes, changed) = match s.notes {
        Some((root, ns)) => (
            Some((root, reanchored_all(ns, bytes))),
            exists|i: int| 0 <= i < ns.len() && reanchor_changes(ns[i], bytes),
        ),
        None => (None, false),
    };
    (
        AppV {
            view_mode: ViewMode::Preview,
            preview_offsets: offsets,
            preview_pointer: block_of_spec(offsets, caret as int) as usize,
            notes: notes,
            ..s
        },
        ActionV::EnteredPreview { save_notes: changed },
    )
}

/// Leaving the preview: the caret lands where the pointed block starts.
pub open spec fn leave_preview_spec(s: AppV) -> AppV {
    let d = s.session.doc;
    let doc = if s.preview_pointer < s.preview_offsets.len() {
        let pos = char_of_byte(d.text, s.preview_offsets[s.preview_pointer as int] as int);
        move_spec(d, clamp(pos, d.text.len() as int) as nat, false, None)
    } else {
        d
    };
    AppV { session: SessionV { doc: doc, ..s.session }, view_mode: ViewMode::Write, ..s }
}

/// Switching between writing and the preview (inert in other views).
pub open spec fn toggle_preview_spec(s: AppV) -> (AppV, ActionV) {
    match s.view_mode {
        ViewMode::Write => enter_preview_spec(s),
        ViewMode::Preview => (leave_preview_spec(s), ActionV::Nothing),
        _ => (s, ActionV::Nothing),
    }
}

/// What a shortcut of the app's keymap does.
pub open spec fn command_step_spec(s: AppV, c: Command) -> (AppV, ActionV) {
    match c {
        Command::Drafts => if s.store is Some {
            (AppV { drafts_selected: 0, view_mode: ViewMode::Drafts, ..s }, ActionV::Nothing)
        } else {
            (s, ActionV::Hint(Hint::SaveForDrafts))
        },
        Command::Mark => if s.store is Some {
            (s, ActionV::OpenOverlay(Overlay::Mark))
        } else {
            (s, ActionV::Hint(Hint::SaveForDrafts))
        },
        Command::Save => if s.path is Some {
            (s, ActionV::Save { snapshot: None })
        } else {
            (s, ActionV::OpenOverlay(Overlay::SaveAs))
        },
        Command::Find => (s, ActionV::OpenOverlay(Overlay::Find)),
        Command::Rename => if s.path is Some {
            (s, ActionV::OpenOverlay(Overlay::Rename))
        } else {
            (s, ActionV::OpenOverlay(Overlay::SaveAs))
        },
        Command::TogglePreview => toggle_preview_spec(s),
        Command::ToggleTheme => (AppV { dark: !s.dark, ..s }, ActionV::ThemeChanged { dark: !s.dark }),
        Command::Publish => if s.publishing {
            (s, ActionV::Nothing)
        } else if s.path is None {
            (s, ActionV::Hint(Hint::SaveForPublishing))
        } else {
            (s, ActionV::ChooseTarget)
        },
        Command::Typewriter => (AppV { typewriter: !s.typewriter, ..s }, ActionV::Nothing),
        Command::FocusDim => (AppV { focus_dim: !s.focus_dim, ..s }, ActionV::Nothing),
        Command::Hemingway => (
            AppV { session: SessionV { hemingway: !s.session.hemingway, ..s.session }, ..s },
            ActionV::Nothing,
        ),
        Command::Zen => (AppV { zen: !s.zen, ..s }, ActionV::Nothing),
        Command::Goal => (s, ActionV::OpenOverlay(Overlay::Goal)),
        Command::Import => (s, ActionV::OpenOverlay(Overlay::Import)),
    }
}

/// What a message does: the next state, and what is left to the front-end.
/// `now_ms` is the monotonic clock; `unix_ms` the wall clock snapshots are
/// stamped with.
pub open spec fn app_step_spec(s: AppV, m: AppMessage, now_ms: u64, unix_ms: u64) -> (AppV, ActionV) {
    match m {
        AppMessage::TogglePreview => toggle_preview_spec(s),
        AppMessage::Command(c) => command_step_spec(s, c),
        AppMessage::PreviewPointer(delta) => if s.view_mode == ViewMode::Preview && s.preview_offsets.len() > 0 {
            (
                AppV {
                    preview_pointer: clamped_step(
                        s.preview_pointer as int,
                        delta as int,
                        s.preview_offsets.len() as int,
                    ) as usize,
                    ..s
                },
                ActionV::SnapPreview,
            )
        } else {
            (s, ActionV::Nothing)
        },
        AppMessage::AutosaveTick => if s.session.doc.dirty && s.path is Some && debounced(s.last_edit, now_ms) {
            if s.store is Some && auto_due(entries_of(s.store), unix_ms) {
                let (store, snap) = store_snapshot_spec(s.store, s.session.doc.text, unix_ms);
                (AppV { store: store, ..s }, ActionV::Save { snapshot: snap })
            } else {
                (s, ActionV::Save { snapshot: None })
            }
        } else {
            (s, ActionV::Nothing)
        },
        AppMessage::DraftsNav(delta) => {
            let len = entries_of(s.store).len();
            if len > 1 {
                (
                    AppV { drafts_selected: clamped_step(s.drafts_selected as int, delta as int, len as int) as usize, ..s },
                    ActionV::SnapDrafts,
                )
            } else {
                (s, ActionV::Nothing)
            }
        },
        AppMessage::DraftsBack => if s.view_mode == ViewMode::DraftView {
            (AppV { draft_view: None, view_mode: ViewMode::Drafts, ..s }, ActionV::Nothing)
        } else {
            (AppV { view_mode: ViewMode::Write, ..s }, ActionV::Nothing)
        },
        AppMessage::DraftsRestore => match s.draft_view {
            Some(t) => {
                let (s2, snap) = replaced_spec(AppV { draft_view: None, ..s }, t, now_ms, unix_ms);
                (s2, ActionV::Restored { snapshot: snap })
            },
            None => (s, ActionV::Nothing),
        },
        AppMessage::ReviewNav(delta) => match s.review {
            Some(items) => {
                let count = changes_of(items).len();
                let i = if count == 0 {
                    0
                } else {
                    clamped_step(s.review_index as int, delta as int, count as int)
                };
                (AppV { review_index: i as usize, ..s }, ActionV::SnapReview)
            },
            None => (s, ActionV::Nothing),
        },
        AppMessage::ReviewDecide(d) => match s.review {
            Some(items) => {
                let items2 = decide_nth(items, s.review_index as int, d);
                let count = changes_of(items2).len();
                let i = if s.review_index + 1 < count {
                    s.review_index + 1
                } else {
                    s.review_index as int
                };
                (AppV { review: Some(items2), review_index: i as usize, ..s }, ActionV::SnapReview)
            },
            None => (s, ActionV::Nothing),
        },
        AppMessage::ReviewDecideAll(d) => match s.review {
            Some(items) => (AppV { review: Some(decide_all(items, d)), ..s }, ActionV::Nothing),
            None => (s, ActionV::Nothing),
        },
        AppMessage::ReviewApply => match s.review {
            Some(items) => {
                let (s2, snap) = replaced_spec(AppV { review: None, ..s }, applied_of(items), now_ms, unix_ms);
                (s2, ActionV::Applied { snapshot: snap, accepted: accepted_in(changes_of(items)) })
            },
            None => (s, ActionV::Nothing),
        },
        AppMessage::ReviewCancel => (AppV { review: None, view_mode: ViewMode::Write, ..s }, ActionV::Nothing),
        AppMessage::CloseRequested => if s.path is Some {
            if s.session.doc.dirty {
                (s, ActionV::SaveThenClose)
            } else {
                (s, ActionV::Close)
            }
        } else if trim(s.session.doc.text).len() != 0 && !s.close_pending {
            (AppV { close_pending: true, ..s }, ActionV::AskName)
        } else {
            (s, ActionV::Close)
        },
    }
}

/// The message can be handled: the `i32` arithmetic of the pointer moves
/// does not overflow, and the pointed block lies within the text.
pub open spec fn step_fits(s: AppV, m: AppMessage) -> bool {
    match m {
        AppMessage::TogglePreview | AppMessage::Command(Command::TogglePreview) => s.view_mode == ViewMode::Preview
            && s.preview_pointer < s.preview_offsets.len() ==> s.preview_offsets[s.preview_pointer as int] <= blen(
            s.session.doc.text,
        ),
        AppMessage::PreviewPointer(delta) => s.view_mode == ViewMode::Preview && s.preview_offsets.len() > 0 ==> (
            s.preview_offsets.len() - 1 <= i32::MAX && s.preview_pointer <= i32::MAX
            && i32::MIN <= s.preview_pointer + delta <= i32::MAX),
        AppMessage::DraftsNav(delta) => entries_of(s.store).len() > 1 ==> (entries_of(s.store).len() - 1 <= i32::MAX
            && s.drafts_selected <= i32::MAX && i32::MIN <= s.drafts_selected + delta <= i32::MAX),
        AppMessage::ReviewNav(delta) => (s.review matches Some(items) && changes_of(items).len() > 0) ==> (
            changes_of(s.review->0).len() - 1 <= i32::MAX && s.review_index <= i32::MAX
            && i32::MIN <= s.review_index + delta <= i32::MAX),
        _ => true,
    }
}

/// An auto snapshot of `text` recorded in the store, when there is one.
fn take_auto_snapshot(store: &mut Option<DraftStore>, text: &str, unix_ms: u64) -> (snap: Option<Entry>)
    ensures
        (
            match *final(store) {
                Some(st) => Some((st.root_value(), st@)),
                None => None,
            },
            entry_opt_view(snap),
        ) == store_snapshot_spec(
            match *old(store) {
                Some(st) => Some((st.root_value(), st@)),
                None => None,
            },
            text@,
            unix_ms,
        ),
{
    match store {
        Some(st) => st.snapshot(text, Kind::Auto, None, unix_ms),
        None => None,
    }
}

/// The autosave timer ticked: a dirty document bound to a file is saved
/// once the debounce window has passed since the last edit, and then, when
/// one is due, an auto snapshot of its text is taken (at `unix_ms`).
pub fn autosave_tick(s: &mut AppState, now_ms: u64, unix_ms: u64) -> (a: AppAction)
    requires
        old(s).session.doc.wf(),
    ensures
        final(s).session.doc.wf(),
        (final(s)@, a@) == app_step_spec(old(s)@, AppMessage::AutosaveTick, now_ms, unix_ms),
{
    if s.session.doc.is_dirty() && s.session.doc.path().is_some() && s.autosave.should_save(now_ms) {
        let due = match &s.store {
            Some(st) => st.should_auto_snapshot(unix_ms),
            None => false,
        };
        if due {
            let text = s.session.doc.text();
            let snapshot = take_auto_snapshot(&mut s.store, text.as_str(), unix_ms);
            AppAction::Save { snapshot }
        } else {
            AppAction::Save { snapshot: None }
        }
    } else {
        AppAction::Nothing
    }
}

/// `first_at_or_past` from `from` on lands at `from` or later.
proof fn lemma_first_at_or_past_from(c: Seq<char>, b: int, from: int)
    requires
        0 <= from <= c.len(),
    ensures
        from <= first_at_or_past(c, b, from) <= c.len(),
    decreases c.len() - from,
{
    if from < c.len() && blen(c.take(from)) < b {
        lemma_first_at_or_past_from(c, b, from + 1);
    }
}

/// Switch between writing and the preview. Entering it captures where each
/// block starts, puts the pointer on the block holding the caret and
/// re-anchors the notes to the text; leaving it puts the caret at the start
/// of the pointed block.
#[verifier::rlimit(30)]
pub fn toggle_preview(s: &mut AppState) -> (a: AppAction)
    requires
        old(s).session.doc.wf(),
        step_fits(old(s)@, AppMessage::TogglePreview),
    ensures
        final(s).session.doc.wf(),
        (final(s)@, a@) == app_step_spec(old(s)@, AppMessage::TogglePreview, 0, 0),
{
    match s.view_mode {
        ViewMode::Write => {
            let text = s.session.doc.text();
            let offsets = block_offsets(text.as_str());
            assert(offsets@ =~= preview_offsets_spec(text@));
            let save_notes = match &mut s.notes {
                Some(ns) => ns.reanchor(text.as_str()),
                None => false,
            };
            let cs = chars_of(text.as_str());
            let total = byte_len_of(&text);
            let caret = prefix_byte_len(&cs, total, s.session.doc.cursor().pos);
            s.preview_pointer = block_of(offsets.as_slice(), caret);
            s.preview_offsets = offsets;
            s.view_mode = ViewMode::Preview;
            AppAction::EnteredPreview { save_notes }
        },
        ViewMode::Preview => {
            if s.preview_pointer < s.preview_offsets.len() {
                let byte = s.preview_offsets[s.preview_pointer];
                let text = s.session.doc.text();
                let cs = chars_of(text.as_str());
                let total = byte_len_of(&text);
                let pos = if byte >= total {
                    cs.len()
                } else {
                    proof {
                        if cs@.len() == 0 {
                            assert(cs@ =~= Seq::<char>::empty());
                            assert(encode_utf8(cs@) =~= Seq::<u8>::empty());
                        }
                        lemma_first_at_or_past_from(cs@, byte + 1, 1);
                    }
                    chars_before_byte(&cs, total, byte + 1) - 1
                };
                s.session.doc.set_cursor_pos(pos, false);
            }
            s.view_mode = ViewMode::Write;
            AppAction::Nothing
        },
        _ => AppAction::Nothing,
    }
}

/// A shortcut of the app's keymap: toggles of the writing modes, the theme
/// and the preview, the prompts, and the commands that need a saved file
/// (drafts, marking, publishing), which otherwise only hint.
#[verifier::rlimit(30)]
pub fn on_command(s: &mut AppState, c: Command) -> (a: AppAction)
    requires
        old(s).session.doc.wf(),
        step_fits(old(s)@, AppMessage::Command(c)),
    ensures
        final(s).session.doc.wf(),
        (final(s)@, a@) == app_step_spec(old(s)@, AppMessage::Command(c), 0, 0),
{
    match c {
        Command::Drafts => {
            if s.store.is_some() {
                s.drafts_selected = 0;
                s.view_mode = ViewMode::Drafts;
                AppAction::Nothing
            } else {
                AppAction::Hint(Hint::SaveForDrafts)
            }
        },
        Command::Mark => {
            if s.store.is_some() {
                AppAction::OpenOverlay(Overlay::Mark)
            } else {
                AppAction::Hint(Hint::SaveForDrafts)
            }
        },
        Command::Save => {
            if s.session.doc.path().is_some() {
                AppAction::Save { snapshot: None }
            } else {
                AppAction::OpenOverlay(Overlay::SaveAs)
            }
        },
        Command::Find => AppAction::OpenOverlay(Overlay::Find),
        Command::Rename => {
            if s.session.doc.path().is_some() {
                AppAction::OpenOverlay(Overlay::Rename)
            } else {
                AppAction::OpenOverlay(Overlay::SaveAs)
            }
        },
        Command::TogglePreview => toggle_preview(s),
        Command::ToggleTheme => {
            s.dark = !s.dark;
            AppAction::ThemeChanged { dark: s.dark }
        },
        Command::Publish => {
            if s.publishing {
                AppAction::Nothing
            } else if s.session.doc.path().is_none() {
                AppAction::Hint(Hint::SaveForPublishing)
            } else {
                AppAction::ChooseTarget
            }
        },
        Command::Typewriter => {
            s.typewriter = !s.typewriter;
            AppAction::Nothing
        },
        Command::FocusDim => {
            s.focus_dim = !s.focus_dim;
            AppAction::Nothing
        },
        Command::Hemingway => {
            s.session.hemingway = !s.session.hemingway;
            AppAction::Nothing
        },
        Command::Zen => {
            s.zen = !s.zen;
            AppAction::Nothing
        },
        Command::Goal => AppAction::OpenOverlay(Overlay::Goal),
        Command::Import => AppAction::OpenOverlay(Overlay::Import),
    }
}

/// The preview pointer message.
fn preview_pointer_step(s: &mut AppState, m: AppMessage, now_ms: u64, unix_ms: u64) -> (a: AppAction)
    requires
        old(s).session.doc.wf(),
        step_fits(old(s)@, m),
        m is PreviewPointer,
    ensures
        final(s).session.doc.wf(),
        (final(s)@, a@) == app_step_spec(old(s)@, m, now_ms, unix_ms),
{
    match m {
        AppMessage::PreviewPointer(delta) => {
            if s.view_mode == ViewMode::Preview && s.preview_offsets.len() > 0 {
                s.preview_pointer = pointer_step(s.preview_pointer, delta, s.preview_offsets.len());
                AppAction::SnapPreview
            } else {
                AppAction::Nothing
            }
        },
        _ => AppAction::Nothing,
    }
}

/// The drafts browser's messages.
#[verifier::rlimit(30)]
fn drafts_step(s: &mut AppState, m: AppMessage, now_ms: u64, unix_ms: u64) -> (a: AppAction)
    requires
        old(s).session.doc.wf(),
        step_fits(old(s)@, m),
        m is DraftsNav || m is DraftsBack || m is DraftsRestore,
    ensures
        final(s).session.doc.wf(),
        (final(s)@, a@) == app_step_spec(old(s)@, m, now_ms, unix_ms),
{
    match m {
        AppMessage::DraftsNav(delta) => {
            let len = match &s.store {
                Some(st) => st.entries().len(),
                None => 0,
            };
            if len > 1 {
                s.drafts_selected = pointer_step(s.drafts_selected, delta, len);
                AppAction::SnapDrafts
            } else {
                AppAction::Nothing
            }
        },
        AppMessage::DraftsBack => {
            if s.view_mode == ViewMode::DraftView {
                s.draft_view = None;
                s.view_mode = ViewMode::Drafts;
            } else {
                s.view_mode = ViewMode::Write;
            }
            AppAction::Nothing
        },
        AppMessage::DraftsRestore => {
            match s.draft_view.take() {
                Some(text) => {
                    let snapshot = restore_draft(&mut s.session, &mut s.store, text.as_str(), unix_ms);
                    s.autosave.note_edit(now_ms);
                    s.close_pending = false;
                    s.view_mode = ViewMode::Write;
                    AppAction::Restored { snapshot }
                },
                None => AppAction::Nothing,
            }
        },
        _ => AppAction::Nothing,
    }
}

/// Moving through the review and deciding its changes.
#[verifier::rlimit(30)]
fn review_decide_step(s: &mut AppState, m: AppMessage, now_ms: u64, unix_ms: u64) -> (a: AppAction)
    requires
        old(s).session.doc.wf(),
        step_fits(old(s)@, m),
        m is ReviewNav || m is ReviewDecide || m is ReviewDecideAll,
    ensures
        final(s).session.doc.wf(),
        (final(s)@, a@) == app_step_spec(old(s)@, m, now_ms, unix_ms),
{
    match m {
        AppMessage::ReviewNav(delta) => {
            match &s.review {
                Some(review) => {
                    let count = review.change_count();
                    s.review_index = if count == 0 {
                        0
                    } else {
                        pointer_step(s.review_index, delta, count)
                    };
                    AppAction::SnapReview
                },
                None => AppAction::Nothing,
            }
        },
        AppMessage::ReviewDecide(d) => {
            match s.review.take() {
                Some(mut review) => {
                    review.set_decision(s.review_index, d);
                    let count = review.change_count();
                    if s.review_index < count && count - s.review_index > 1 {
                        s.review_index = s.review_index + 1;
                    }
                    s.review = Some(review);
                    AppAction::SnapReview
                },
                None => AppAction::Nothing,
            }
        },
        AppMessage::ReviewDecideAll(d) => {
            match s.review.take() {
                Some(mut review) => {
                    review.set_all(d);
                    s.review = Some(review);
                },
                None => {},
            }
            AppAction::Nothing
        },
        _ => AppAction::Nothing,
    }
}

/// Applying or cancelling the review.
#[verifier::rlimit(30)]
fn review_end_step(s: &mut AppState, m: AppMessage, now_ms: u64, unix_ms: u64) -> (a: AppAction)
    requires
        old(s).session.doc.wf(),
        step_fits(old(s)@, m),
        m is ReviewApply || m is ReviewCancel,
    ensures
        final(s).session.doc.wf(),
        (final(s)@, a@) == app_step_spec(old(s)@, m, now_ms, unix_ms),
{
    match m {
        AppMessage::ReviewApply => {
            match s.review.take() {
                Some(review) => {
                    let accepted = review.accepted_count();
                    let snapshot = apply_review(&mut s.session, &mut s.store, &review, unix_ms);
                    s.autosave.note_edit(now_ms);
                    s.close_pending = false;
                    s.view_mode = ViewMode::Write;
                    AppAction::Applied { snapshot, accepted }
                },
                None => AppAction::Nothing,
            }
        },
        AppMessage::ReviewCancel => {
            s.review = None;
            s.view_mode = ViewMode::Write;
            AppAction::Nothing
        },
        _ => AppAction::Nothing,
    }
}

/// A close request.
fn close_step(s: &mut AppState, m: AppMessage, now_ms: u64, unix_ms: u64) -> (a: AppAction)
    requires
        old(s).session.doc.wf(),
        step_fits(old(s)@, m),
        m is CloseRequested,
    ensures
        final(s).session.doc.wf(),
        (final(s)@, a@) == app_step_spec(old(s)@, m, now_ms, unix_ms),
{
    match m {
        AppMessage::CloseRequested => {
            if s.session.doc.path().is_some() {
                if s.session.doc.is_dirty() {
                    AppAction::SaveThenClose
                } else {
                    AppAction::Close
                }
            } else {
                let text = s.session.doc.text();
                let cs = chars_of(text.as_str());
                if !is_blank(&cs) && !s.close_pending {
                    s.close_pending = true;
                    AppAction::AskName
                } else {
                    AppAction::Close
                }
            }
        },
        _ => AppAction::Nothing,
    }
}

/// Handle one message: decide, change the state, and say what the
/// front-end has left to do (saving, closing and writing snapshots out are
/// its part).
pub fn app_step(s: &mut AppState, m: AppMessage, now_ms: u64, unix_ms: u64) -> (a: AppAction)
    requires
        old(s).session.doc.wf(),
        step_fits(old(s)@, m),
    ensures
        final(s).session.doc.wf(),
        (final(s)@, a@) == app_step_spec(old(s)@, m, now_ms, unix_ms),
{
    match m {
        AppMessage::TogglePreview => toggle_preview(s),
        AppMessage::Command(c) => on_command(s, c),
        AppMessage::PreviewPointer(_) => preview_pointer_step(s, m, now_ms, unix_ms),
        AppMessage::AutosaveTick => autosave_tick(s, now_ms, unix_ms),
        AppMessage::DraftsNav(_) | AppMessage::DraftsBack | AppMessage::DraftsRestore => drafts_step(s, m, now_ms, unix_ms),
        AppMessage::ReviewNav(_) | AppMessage::ReviewDecide(_) | AppMessage::ReviewDecideAll(_) => review_decide_step(
            s,
            m,
            now_ms,
            unix_ms,
        ),
        AppMessage::ReviewApply | AppMessage::ReviewCancel => review_end_step(s, m, now_ms, unix_ms),
        AppMessage::CloseRequested => close_step(s, m, now_ms, unix_ms),
    }
}

} // verus!
