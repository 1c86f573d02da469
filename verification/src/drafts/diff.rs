//! Word-level diff between two document states, for the drafts browser and
//! the review of an edited copy.

use vstd::prelude::*;
use similar::{ChangeTag, TextDiff};

verus! {

#[derive(Debug, Clone, Copy, PartialEq, Eq, Structural)]
pub enum DiffKind {
    Equal,
    /// Present in `old` only.
    Removed,
    /// Present in `new` only.
    Added,
}

#[derive(Debug)]
pub struct DiffSpan {
    pub kind: DiffKind,
    pub text: String,
}

/// The changes of a word diff of `old` against `new`: each a token run (runs
/// of whitespace or of non-whitespace) with its tag.
pub uninterp spec fn word_changes_of(old: Seq<char>, new: Seq<char>) -> Seq<(DiffKind, Seq<char>)>;

/// One side of a diff: the text of its spans kept on that side (equal spans
/// and those of `keep`), in order.
pub open spec fn side(spans: Seq<(DiffKind, Seq<char>)>, keep: DiffKind) -> Seq<char>
    decreases spans.len(),
{
    if spans.len() == 0 {
        Seq::empty()
    } else {
        let (k, t) = spans.last();
        side(spans.drop_last(), keep) + if k == DiffKind::Equal || k == keep {
            t
        } else {
            Seq::empty()
        }
    }
}

pub open spec fn span_views(v: Seq<DiffSpan>) -> Seq<(DiffKind, Seq<char>)> {
    v.map_values(|s: DiffSpan| (s.kind, s.text@))
}

/// `TextDiff::from_words(old, new).iter_all_changes()`, each change taken as
/// (tag, text). The changes walk every token of both texts in order: the
/// equal and deleted ones spell `old`, the equal and inserted ones `new`.
/// A token is a non-empty run of whitespace or of other chars, so no
/// change is empty; two equal texts differ nowhere, so all their changes
/// are equal ones.
#[verifier::external_body]
fn word_changes(old: &str, new: &str) -> (r: Vec<DiffSpan>)
    ensures
        span_views(r@) == word_changes_of(old@, new@),
        side(span_views(r@), DiffKind::Removed) == old@,
        side(span_views(r@), DiffKind::Added) == new@,
        forall|i: int| 0 <= i < r@.len() ==> (#[trigger] span_views(r@)[i]).1.len() > 0,
        old@ == new@ ==> forall|i: int| 0 <= i < r@.len() ==> (#[trigger] span_views(r@)[i]).0 == DiffKind::Equal,
{
    let diff = TextDiff::from_words(old, new);
    diff.iter_all_changes().map(|c| {
        let kind = match c.tag() {
            ChangeTag::Equal => DiffKind::Equal,
            ChangeTag::Delete => DiffKind::Removed,
            ChangeTag::Insert => DiffKind::Added,
        };
        DiffSpan { kind, text: c.value().to_string() }
    }).collect()
}

/// Consecutive changes of one kind merged into a single span.
pub open spec fn merge_runs(cs: Seq<(DiffKind, Seq<char>)>) -> Seq<(DiffKind, Seq<char>)>
    decreases cs.len(),
{
    if cs.len() == 0 {
        Seq::empty()
    } else {
        let m = merge_runs(cs.drop_last());
        let (k, t) = cs.last();
        if m.len() > 0 && m.last().0 == k {
            m.update(m.len() - 1, (k, m.last().1 + t))
        } else {
            m.push((k, t))
        }
    }
}

/// Merging runs keeps both sides of the diff.
pub proof fn lemma_merge_keeps_sides(cs: Seq<(DiffKind, Seq<char>)>, keep: DiffKind)
    ensures
        side(merge_runs(cs), keep) == side(cs, keep),
        merge_runs(cs).len() <= cs.len(),
        forall|i: int| 0 < i < merge_runs(cs).len() ==> merge_runs(cs)[i - 1].0 != #[trigger] merge_runs(cs)[i].0,
    decreases cs.len(),
{
    if cs.len() > 0 {
        let p = cs.drop_last();
        lemma_merge_keeps_sides(p, keep);
        let m = merge_runs(p);
        let (k, t) = cs.last();
        if m.len() > 0 && m.last().0 == k {
            let m2 = m.update(m.len() - 1, (k, m.last().1 + t));
            assert(m2.drop_last() =~= m.drop_last());
            if k == DiffKind::Equal || k == keep {
                assert(side(m2, keep) =~= side(m, keep) + t);
            } else {
                assert(side(m2, keep) =~= side(m, keep));
            }
        } else {
            assert(m.push((k, t)).drop_last() =~= m);
        }
    }
}

/// Merging keeps every span non-empty when every change is, and a kind
/// that every change has, every merged span has.
pub proof fn lemma_merge_spans(cs: Seq<(DiffKind, Seq<char>)>, k: DiffKind)
    ensures
        (forall|i: int| 0 <= i < cs.len() ==> (#[trigger] cs[i]).1.len() > 0) ==> (forall|i: int|
            0 <= i < merge_runs(cs).len() ==> (#[trigger] merge_runs(cs)[i]).1.len() > 0),
        (forall|i: int| 0 <= i < cs.len() ==> (#[trigger] cs[i]).0 == k) ==> (forall|i: int|
            0 <= i < merge_runs(cs).len() ==> (#[trigger] merge_runs(cs)[i]).0 == k),
    decreases cs.len(),
{
    if cs.len() > 0 {
        let p = cs.drop_last();
        lemma_merge_spans(p, k);
        assert(forall|i: int| 0 <= i < p.len() ==> #[trigger] p[i] == cs[i]);
    }
}

/// Word-level diff spans. Concatenating Equal+Removed reproduces `old`;
/// Equal+Added reproduces `new`; neighbouring spans differ in kind.
pub fn word_diff(old: &str, new: &str) -> (r: Vec<DiffSpan>)
    ensures
        span_views(r@) == merge_runs(word_changes_of(old@, new@)),
        side(span_views(r@), DiffKind::Removed) == old@,
        side(span_views(r@), DiffKind::Added) == new@,
        forall|i: int| 0 <= i < r@.len() ==> (#[trigger] span_views(r@)[i]).1.len() > 0,
        old@ == new@ && old@.len() == 0 ==> r@.len() == 0,
        old@ == new@ && old@.len() > 0 ==> r@.len() == 1 && r@[0].kind == DiffKind::Equal && r@[0].text@ == old@,
{
    let changes = word_changes(old, new);
    let ghost cs = span_views(changes@);
    let mut spans: Vec<DiffSpan> = Vec::new();
    let mut i: usize = 0;
    assert(cs.take(0) =~= Seq::<(DiffKind, Seq<char>)>::empty());
    while i < changes.len()
        invariant
            cs == span_views(changes@),
            i <= changes.len(),
            span_views(spans@) == merge_runs(cs.take(i as int)),
        decreases changes.len() - i,
    {
        let kind = changes[i].kind;
        let text = changes[i].text.as_str();
        let ghost before = span_views(spans@);
        proof {
            assert(cs.take(i + 1).drop_last() =~= cs.take(i as int));
            assert(cs.take(i + 1).last() == cs[i as int]);
        }
        let n = spans.len();
        if n > 0 && spans[n - 1].kind == kind {
            let mut last = spans.pop().unwrap();
            last.text.append(text);
            spans.push(last);
            assert(span_views(spans@) =~= before.update(n - 1, (kind, before[n - 1].1 + text@)));
        } else {
            spans.push(DiffSpan { kind, text: text.to_string() });
            assert(span_views(spans@) =~= before.push((kind, text@)));
        }
        i = i + 1;
    }
    proof {
        assert(cs.take(changes.len() as int) =~= cs);
        lemma_merge_keeps_sides(cs, DiffKind::Removed);
        lemma_merge_keeps_sides(cs, DiffKind::Added);
        lemma_merge_spans(cs, DiffKind::Equal);
        let m = span_views(spans@);
        if old@ == new@ {
            if m.len() > 1 {
                assert(m[0].0 == DiffKind::Equal);
                assert(m[1].0 == DiffKind::Equal);
            }
            if m.len() == 1 {
                assert(m.drop_last() =~= Seq::<(DiffKind, Seq<char>)>::empty());
                assert(side(m.drop_last(), DiffKind::Removed) == Seq::<char>::empty());
                assert(m.last() == m[0]);
                assert(m[0].0 == DiffKind::Equal);
                assert(side(m, DiffKind::Removed) =~= m[0].1);
            }
            if m.len() == 0 {
                assert(side(m, DiffKind::Removed) == Seq::<char>::empty());
            }
        }
    }
    spans
}

} // verus!
