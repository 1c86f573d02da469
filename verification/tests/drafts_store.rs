use polaris::drafts::notes::{NoteState, NoteStore};
use polaris::drafts::store::{
    sidecar_root, SidecarError,
    decode_object, encode_object, object_of_file, DraftStore, Kind, ObjectError, AUTO_INTERVAL_MS,
    AUTO_KEEP_MS,
};
use std::path::PathBuf;

fn empty_store() -> DraftStore {
    DraftStore::new(PathBuf::from("/tmp/.polaris/doc.md"), Vec::new())
}

#[test]
fn snapshot_load_roundtrip_and_dedup() {
    let mut store = empty_store();
    let e1 = store
        .snapshot("draft one — café", Kind::Marked, Some("Draft 1".into()), 1000)
        .unwrap();
    let frame = encode_object("draft one — café").unwrap();
    assert_eq!(decode_object(&frame).unwrap(), "draft one — café");
    assert_eq!(e1.words, 3);

    // Marking again without edits: new entry, same object.
    let e2 = store
        .snapshot("draft one — café", Kind::Marked, Some("Draft 2".into()), 2000)
        .unwrap();
    assert_eq!(e1.object, e2.object);
    assert_eq!(store.entries().len(), 2);
    assert_eq!(store.entries()[0].name.as_deref(), Some("Draft 1"));
}

#[test]
fn autos_skip_unchanged_and_respect_interval() {
    let mut store = empty_store();
    assert!(store.should_auto_snapshot(0));
    assert!(store.snapshot("v1", Kind::Auto, None, 0).is_some());
    assert!(store.snapshot("v1", Kind::Auto, None, 50).is_none());
    assert!(!store.should_auto_snapshot(AUTO_INTERVAL_MS - 1));
    assert!(store.should_auto_snapshot(AUTO_INTERVAL_MS));
    assert!(store.snapshot("v2", Kind::Auto, None, AUTO_INTERVAL_MS).is_some());
}

#[test]
fn prune_keeps_marked_and_recent_autos() {
    let mut store = empty_store();
    store.snapshot("keep me", Kind::Marked, Some("Draft 1".into()), 0);
    // 60 old autos (distinct content), all beyond 7 days at prune time.
    for i in 0..60u64 {
        store.snapshot(&format!("auto {i}"), Kind::Auto, None, i);
    }
    let now = AUTO_KEEP_MS + 1_000_000;
    let removed = store.prune(now);
    assert_eq!(removed, 10, "kept the newest 50 autos");
    assert_eq!(store.marked_count(), 1, "marked survive everything");

    // Recent autos survive regardless of count position.
    let mut store2 = empty_store();
    for i in 0..60u64 {
        store2.snapshot(&format!("auto {i}"), Kind::Auto, None, now + i);
    }
    assert_eq!(store2.prune(now + 100), 0, "all within 7 days");
}

#[test]
fn entry_ids_name_time_and_object() {
    let mut store = empty_store();
    let e = store.snapshot("x", Kind::Auto, None, 0x1234).unwrap();
    assert_eq!(e.object.len(), 16);
    assert_eq!(e.id, format!("d-0000000001234-{}", &e.object[..4]));
    assert_eq!(store.last().unwrap().id, e.id);
    assert!(store.references(&e.object));
    assert!(!store.references("0000000000000000"));
}

#[test]
fn objects_read_back_or_say_why_not() {
    assert_eq!(decode_object(b"not zstd"), Err(ObjectError::Corrupt));
    let bad = zstd::encode_all(&[0xff, 0xfe][..], 3).unwrap();
    assert_eq!(decode_object(&bad), Err(ObjectError::NotText));
    assert_eq!(object_of_file("abc.zst"), "abc");
    assert_eq!(object_of_file("abc.zst.zst"), "abc");
    assert_eq!(object_of_file("abc.zs"), "abc.zs");
}

// --- notes ---

fn note_store() -> NoteStore {
    NoteStore::new(PathBuf::from("/tmp/.polaris/doc.md"), Vec::new())
}

#[test]
fn add_persists_and_reloads() {
    let mut store = note_store();
    store.add(10, 20, "the quote".into(), "weak transition".into(), 1000);
    assert_eq!(store.notes().len(), 1);
    assert_eq!(store.notes()[0].body, "weak transition");
    assert_eq!(store.notes()[0].quote, "the quote");
    assert!(store.notes()[0].is_open());
}

#[test]
fn reanchor_keeps_moves_and_detaches() {
    let mut store = note_store();
    let src = "alpha beta gamma";
    let start = src.find("beta").unwrap();
    store.add(start, start + 4, "beta".into(), "note".into(), 0);

    // Unchanged source: stays put, no change reported.
    assert!(!store.reanchor(src));
    assert_eq!(store.notes()[0].start, start);
    assert!(!store.notes()[0].detached);

    // Text pushed later in the document: the note follows.
    let moved = "xxxxx alpha beta gamma";
    assert!(store.reanchor(moved));
    assert_eq!(store.notes()[0].start, moved.find("beta").unwrap());
    assert!(!store.notes()[0].detached);

    // Quote gone: detached, but kept.
    assert!(store.reanchor("alpha gamma"));
    assert!(store.notes()[0].detached);
    assert_eq!(store.notes().len(), 1);

    // Quote returns: re-attaches.
    assert!(store.reanchor("beta again"));
    assert!(!store.notes()[0].detached);
}

#[test]
fn reanchor_picks_the_nearest_occurrence() {
    let mut store = note_store();
    // Two occurrences of "x"; anchor near the second.
    let src = "x .......... x";
    let second = src.rfind('x').unwrap();
    store.add(second, second + 1, "x".into(), "n".into(), 0);
    store.reanchor(src);
    assert_eq!(store.notes()[0].start, second, "keeps the nearer match");
}

#[test]
fn toggle_resolve_and_remove() {
    let mut store = note_store();
    let id = store.add(0, 3, "abc".into(), "cut this".into(), 0);

    store.toggle_resolved(&id);
    assert_eq!(store.notes()[0].state, NoteState::Resolved);
    store.toggle_resolved(&id);
    assert!(store.notes()[0].is_open());

    store.remove(&id);
    assert!(store.is_empty());
}

#[test]
fn note_ids_and_edits() {
    let mut store = note_store();
    let id = store.add(3, 5, "hé".into(), "body".into(), 0xabc);
    assert!(id.starts_with("n-0000000000abc-"));
    assert_eq!(id.len(), "n-0000000000abc-".len() + 4);
    store.edit(&id, "new body".into());
    assert_eq!(store.notes()[0].body, "new body");
    store.edit("missing", "x".into());
    assert_eq!(store.notes().len(), 1);
    // Re-anchoring counts bytes: "é" is two.
    store.reanchor("ééhé");
    assert_eq!(store.notes()[0].start, 4);
    assert_eq!(store.notes()[0].end, 7);
}

#[test]
fn sidecar_sits_beside_the_document() {
    assert_eq!(
        sidecar_root(&PathBuf::from("/docs/doc.md")),
        Ok(PathBuf::from("/docs/.polaris/doc.md"))
    );
    assert_eq!(sidecar_root(&PathBuf::from("doc.md")), Err(SidecarError::NoDirectory));
    assert_eq!(sidecar_root(&PathBuf::from("/")), Err(SidecarError::NoDirectory));
    assert_eq!(sidecar_root(&PathBuf::from("/docs/..")), Err(SidecarError::NoName));
}
