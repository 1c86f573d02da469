use polaris::drafts::diff::{word_diff, DiffKind, DiffSpan};
use polaris::drafts::review::{ChangeKind, Decision, Review};

fn join(spans: &[DiffSpan], keep: DiffKind) -> String {
    spans
        .iter()
        .filter(|s| s.kind == DiffKind::Equal || s.kind == keep)
        .map(|s| s.text.as_str())
        .collect()
}

#[test]
fn diff_reconstructs_both_sides() {
    let old = "the quick brown fox jumps";
    let new = "the slow brown fox jumps high";
    let spans = word_diff(old, new);
    assert_eq!(join(&spans, DiffKind::Removed), old);
    assert_eq!(join(&spans, DiffKind::Added), new);
}

#[test]
fn identical_texts_are_one_equal_span() {
    let spans = word_diff("same text", "same text");
    assert_eq!(spans.len(), 1);
    assert_eq!(spans[0].kind, DiffKind::Equal);
}

#[test]
fn diff_handles_multiline_and_unicode() {
    let old = "café one\ntwo";
    let new = "café one\nthree — two";
    let spans = word_diff(old, new);
    assert_eq!(join(&spans, DiffKind::Removed), old);
    assert_eq!(join(&spans, DiffKind::Added), new);
    assert!(spans.iter().any(|s| s.kind == DiffKind::Added));
}

#[test]
fn neighbouring_spans_differ_in_kind() {
    let spans = word_diff("a b c d", "a x y d");
    for w in spans.windows(2) {
        assert_ne!(w[0].kind, w[1].kind);
    }
}

#[test]
fn all_pending_reproduces_current_all_accepted_reproduces_incoming() {
    let current = "the quick brown fox jumps";
    let incoming = "the slow brown fox leaps high";
    let mut review = Review::from_texts(current, incoming);

    assert_eq!(review.applied(), current, "pending keeps current");
    review.set_all(Decision::Accepted);
    assert_eq!(review.applied(), incoming, "accepted yields incoming");
    review.set_all(Decision::Rejected);
    assert_eq!(review.applied(), current, "rejected keeps current");
}

#[test]
fn change_kinds_are_classified() {
    // Pure insertion.
    let ins = Review::from_texts("a c", "a b c");
    assert_eq!(ins.change_count(), 1);
    assert_eq!(ins.change(0).unwrap().kind, ChangeKind::Insert);

    // Pure deletion.
    let del = Review::from_texts("a b c", "a c");
    assert_eq!(del.change(0).unwrap().kind, ChangeKind::Delete);

    // Replacement.
    let rep = Review::from_texts("a b c", "a X c");
    assert_eq!(rep.change(0).unwrap().kind, ChangeKind::Replace);
}

#[test]
fn per_change_decisions_compose() {
    let current = "one two three four";
    let incoming = "one TWO three FOUR";
    let mut review = Review::from_texts(current, incoming);
    assert_eq!(review.change_count(), 2);

    // Accept the first change, reject the second.
    review.set_decision(0, Decision::Accepted);
    review.set_decision(1, Decision::Rejected);
    assert_eq!(review.applied(), "one TWO three four");
    assert_eq!(review.accepted_count(), 1);
    assert_eq!(review.decided_count(), 2);
}

#[test]
fn identical_documents_have_no_changes() {
    let review = Review::from_texts("same words here", "same words here");
    assert!(review.is_empty());
    assert_eq!(review.applied(), "same words here");
}

#[test]
fn out_of_range_decision_changes_nothing() {
    let mut review = Review::from_texts("a b", "a c");
    review.set_decision(5, Decision::Accepted);
    assert_eq!(review.decided_count(), 0);
    assert!(review.change(1).is_none());
    assert_eq!(review.changes().len(), 1);
}

#[test]
fn diff_spans_are_never_empty() {
    for (old, new) in [("a  b\n c", "a b\n\nc d"), ("", "x"), ("x", ""), ("", "")] {
        for span in word_diff(old, new) {
            assert!(!span.text.is_empty());
        }
    }
    assert!(word_diff("", "").is_empty());
}

#[test]
fn mixed_pending_and_rejected_keeps_the_current_text() {
    let current = "one two three four";
    let incoming = "one 2 three 4";
    let mut review = Review::from_texts(current, incoming);
    assert_eq!(review.change_count(), 2);
    review.set_decision(0, Decision::Rejected);
    assert_eq!(review.applied(), current);
    review.set_decision(1, Decision::Accepted);
    review.set_decision(0, Decision::Accepted);
    assert_eq!(review.applied(), incoming);
}
