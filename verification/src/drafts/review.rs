//! Accept/reject editing. Import an edited copy of a document, see it as a
//! sequence of changes over the current text, and accept or reject each one.
//!
//! A change is proposed, never auto-applied: `applied()` is a pure fold the
//! caller adopts as one undo group. With every change pending (or rejected)
//! it gives the current text back exactly; with every change accepted it
//! gives the imported copy exactly.

use vstd::prelude::*;
use crate::drafts::diff::{word_diff, DiffKind, DiffSpan, side, span_views, merge_runs, word_changes_of};

verus! {

#[derive(Debug, Clone, Copy, PartialEq, Eq, Structural)]
pub enum ChangeKind {
    /// Incoming adds text not in the current document.
    Insert,
    /// Incoming removes text that is in the current document.
    Delete,
    /// Incoming swaps some current text for different text.
    Replace,
}

#[derive(Debug, Clone, Copy, PartialEq, Eq, Structural)]
pub enum Decision {
    Pending,
    Accepted,
    Rejected,
}

#[derive(Debug)]
pub struct Change {
    pub kind: ChangeKind,
    /// The current document's text at this spot (empty for an insertion).
    pub old: String,
    /// The incoming edit's text (empty for a deletion).
    pub new: String,
    pub decision: Decision,
}

/// One reviewable document: fixed context interleaved with proposed changes.
#[derive(Debug)]
enum Item {
    Context(String),
    Change(Change),
}

/// A review item as values.
pub enum ItemV {
    Context(Seq<char>),
    Change { kind: ChangeKind, old: Seq<char>, new: Seq<char>, decision: Decision },
}

impl View for Item {
    type V = ItemV;

    closed spec fn view(&self) -> ItemV {
        match self {
            Item::Context(t) => ItemV::Context(t@),
            Item::Change(c) => ItemV::Change { kind: c.kind, old: c.old@, new: c.new@, decision: c.decision },
        }
    }
}

/// The kind of a change from its two sides.
pub open spec fn kind_of(old: Seq<char>, new: Seq<char>) -> ChangeKind {
    if old.len() == 0 {
        ChangeKind::Insert
    } else if new.len() == 0 {
        ChangeKind::Delete
    } else {
        ChangeKind::Replace
    }
}

/// Review items from diff spans: equal spans are context; each run of
/// removed/added spans is one pending change.
pub open spec fn items_of(spans: Seq<(DiffKind, Seq<char>)>) -> Seq<ItemV>
    decreases spans.len(),
{
    if spans.len() == 0 {
        Seq::empty()
    } else {
        let items = items_of(spans.drop_last());
        let (k, t) = spans.last();
        if k == DiffKind::Equal {
            items.push(ItemV::Context(t))
        } else {
            let (old0, new0, start_new) = if items.len() > 0 && items.last() is Change {
                (items.last()->old, items.last()->new, false)
            } else {
                (Seq::<char>::empty(), Seq::<char>::empty(), true)
            };
            let old = if k == DiffKind::Removed { old0 + t } else { old0 };
            let new = if k == DiffKind::Added { new0 + t } else { new0 };
            let c = ItemV::Change { kind: kind_of(old, new), old, new, decision: Decision::Pending };
            if start_new {
                items.push(c)
            } else {
                items.update(items.len() - 1, c)
            }
        }
    }
}

/// The text for the items' decisions: accepted changes take the incoming
/// text, rejected and pending ones keep the current text.
pub open spec fn applied_of(items: Seq<ItemV>) -> Seq<char>
    decreases items.len(),
{
    if items.len() == 0 {
        Seq::empty()
    } else {
        applied_of(items.drop_last()) + match items.last() {
            ItemV::Context(t) => t,
            ItemV::Change { old, new, decision, .. } => if decision == Decision::Accepted {
                new
            } else {
                old
            },
        }
    }
}

/// The changes among the items, in order.
pub open spec fn changes_of(items: Seq<ItemV>) -> Seq<ItemV>
    decreases items.len(),
{
    if items.len() == 0 {
        Seq::empty()
    } else {
        let c = changes_of(items.drop_last());
        if items.last() is Change {
            c.push(items.last())
        } else {
            c
        }
    }
}

/// Every change decided as `d`.
pub open spec fn decide_all(items: Seq<ItemV>, d: Decision) -> Seq<ItemV> {
    items.map_values(|it: ItemV| match it {
        ItemV::Change { kind, old, new, .. } => ItemV::Change { kind, old, new, decision: d },
        ItemV::Context(t) => ItemV::Context(t),
    })
}

/// Items whose changes are all decided as `d`.
pub open spec fn all_decided(items: Seq<ItemV>, d: Decision) -> bool {
    forall|i: int| 0 <= i < items.len() && (#[trigger] items[i]) is Change ==> items[i]->decision == d
}

/// The items after deciding the change with index `n` (counting changes
/// only) as `d`.
pub open spec fn decide_nth(items: Seq<ItemV>, n: int, d: Decision) -> Seq<ItemV> {
    let cs = changes_of(items);
    if 0 <= n < cs.len() {
        items.update(item_index_of_change(items, n), match items[item_index_of_change(items, n)] {
            ItemV::Change { kind, old, new, .. } => ItemV::Change { kind, old, new, decision: d },
            ItemV::Context(t) => ItemV::Context(t),
        })
    } else {
        items
    }
}

/// Index among all items of the change with index `n`.
pub open spec fn item_index_of_change(items: Seq<ItemV>, n: int) -> int
    decreases items.len(),
{
    if items.len() == 0 {
        0
    } else if items.last() is Change && changes_of(items.drop_last()).len() == n {
        items.len() - 1
    } else {
        item_index_of_change(items.drop_last(), n)
    }
}

/// Items built from diff spans, before any decision: every change pending.
proof fn lemma_items_pending(spans: Seq<(DiffKind, Seq<char>)>)
    ensures
        all_decided(items_of(spans), Decision::Pending),
    decreases spans.len(),
{
    if spans.len() > 0 {
        lemma_items_pending(spans.drop_last());
    }
}

/// With every change decided `d`, the applied text is one side of the diff:
/// the current side unless `d` accepts.
proof fn lemma_applied_side(spans: Seq<(DiffKind, Seq<char>)>, d: Decision)
    ensures
        applied_of(decide_all(items_of(spans), d)) == side(
            spans,
            if d == Decision::Accepted {
                DiffKind::Added
            } else {
                DiffKind::Removed
            },
        ),
        items_of(spans).len() > 0 && items_of(spans).last() is Change ==> {
            let c = items_of(spans).last();
            let p = decide_all(items_of(spans), d).drop_last();
            applied_of(p) + if d == Decision::Accepted {
                c->new
            } else {
                c->old
            } == side(
                spans,
                if d == Decision::Accepted {
                    DiffKind::Added
                } else {
                    DiffKind::Removed
                },
            )
        },
    decreases spans.len(),
{
    let keep = if d == Decision::Accepted {
        DiffKind::Added
    } else {
        DiffKind::Removed
    };
    if spans.len() > 0 {
        let p = spans.drop_last();
        lemma_applied_side(p, d);
        let items = items_of(p);
        let (k, t) = spans.last();
        let all = items_of(spans);
        let da = decide_all(all, d);
        if k == DiffKind::Equal {
            assert(all == items.push(ItemV::Context(t)));
            assert(da.drop_last() =~= decide_all(items, d));
        } else if items.len() > 0 && items.last() is Change {
            let c0 = items.last();
            assert(all.drop_last() =~= items.drop_last());
            assert(da.drop_last() =~= decide_all(items, d).drop_last());
            assert(decide_all(items, d).drop_last() =~= decide_all(items.drop_last(), d));
            let x = decide_all(items, d).drop_last();
            if k == keep {
                assert(applied_of(x) + (if d == Decision::Accepted { c0->new } else { c0->old }) + t
                    =~= applied_of(x) + ((if d == Decision::Accepted { c0->new } else { c0->old }) + t));
            }
        } else {
            assert(da.drop_last() =~= decide_all(items, d));
            assert(all.drop_last() =~= items);
            if k == keep {
                assert(Seq::<char>::empty() + t =~= t);
            } else {
                assert(Seq::<char>::empty() + Seq::<char>::empty() =~= Seq::<char>::empty());
            }
        }
    }
}

/// Deciding all changes again overrides earlier decisions.
proof fn lemma_decide_all_twice(items: Seq<ItemV>, a: Decision, b: Decision)
    ensures
        decide_all(decide_all(items, a), b) == decide_all(items, b),
{
    assert forall|i: int| 0 <= i < items.len() implies decide_all(decide_all(items, a), b)[i] == decide_all(
        items,
        b,
    )[i] by {
        match items[i] {
            ItemV::Change { .. } => {},
            ItemV::Context(_) => {},
        }
    }
    assert(decide_all(decide_all(items, a), b) =~= decide_all(items, b));
}

/// The applied text depends on the decisions only through which changes
/// are accepted.
proof fn lemma_applied_by_acceptance(items: Seq<ItemV>, d: Decision)
    requires
        forall|i: int|
            0 <= i < items.len() && (#[trigger] items[i]) is Change ==> ((items[i]->decision == Decision::Accepted)
                == (d == Decision::Accepted)),
    ensures
        applied_of(items) == applied_of(decide_all(items, d)),
    decreases items.len(),
{
    if items.len() > 0 {
        let p = items.drop_last();
        assert forall|i: int| 0 <= i < p.len() && (#[trigger] p[i]) is Change implies ((p[i]->decision
            == Decision::Accepted) == (d == Decision::Accepted)) by {
            assert(p[i] == items[i]);
        }
        lemma_applied_by_acceptance(p, d);
        assert(decide_all(items, d).drop_last() =~= decide_all(p, d));
        let last = items.last();
        assert(items[items.len() - 1] == last);
    }
}

/// The change with index `n` sits among the items, and is a change.
proof fn lemma_index_of_change_bounds(items: Seq<ItemV>, n: int)
    requires
        0 <= n < changes_of(items).len(),
    ensures
        0 <= item_index_of_change(items, n) < items.len(),
        items[item_index_of_change(items, n)] is Change,
    decreases items.len(),
{
    let p = items.drop_last();
    if !(items.last() is Change && changes_of(p).len() == n) {
        lemma_index_of_change_bounds(p, n);
        let j = item_index_of_change(p, n);
        assert(p[j] == items[j]);
    }
}

/// Deciding one change, or all of them, leaves the review's changes as they
/// were (only their decisions move).
pub proof fn lemma_deciding_keeps_changes(items: Seq<ItemV>, n: int, d: Decision)
    ensures
        decide_all(decide_nth(items, n, d), Decision::Pending) == decide_all(items, Decision::Pending),
        decide_all(decide_all(items, d), Decision::Pending) == decide_all(items, Decision::Pending),
{
    lemma_decide_all_twice(items, d, Decision::Pending);
    let r = decide_nth(items, n, d);
    if 0 <= n < changes_of(items).len() {
        let j = item_index_of_change(items, n);
        lemma_index_of_change_bounds(items, n);
        assert forall|i: int| 0 <= i < items.len() implies decide_all(r, Decision::Pending)[i] == decide_all(
            items,
            Decision::Pending,
        )[i] by {
            if i == j {
                match items[j] {
                    ItemV::Change { .. } => {},
                    ItemV::Context(_) => {},
                }
            }
        }
        assert(decide_all(r, Decision::Pending) =~= decide_all(items, Decision::Pending));
    }
}

/// Whatever mix of decisions a review of `spans` holds: with no change
/// accepted it gives the current side back, and with every change accepted
/// the incoming side.
pub proof fn lemma_applied_follows_acceptance(items: Seq<ItemV>, spans: Seq<(DiffKind, Seq<char>)>)
    requires
        decide_all(items, Decision::Pending) == items_of(spans),
    ensures
        (forall|i: int| 0 <= i < items.len() && (#[trigger] items[i]) is Change ==> items[i]->decision
            != Decision::Accepted) ==> applied_of(items) == side(spans, DiffKind::Removed),
        all_decided(items, Decision::Accepted) ==> applied_of(items) == side(spans, DiffKind::Added),
{
    lemma_decide_all_twice(items, Decision::Pending, Decision::Rejected);
    lemma_decide_all_twice(items, Decision::Pending, Decision::Accepted);
    lemma_applied_side(spans, Decision::Rejected);
    lemma_applied_side(spans, Decision::Accepted);
    if forall|i: int| 0 <= i < items.len() && (#[trigger] items[i]) is Change ==> items[i]->decision
        != Decision::Accepted {
        lemma_applied_by_acceptance(items, Decision::Rejected);
    }
    if all_decided(items, Decision::Accepted) {
        lemma_applied_by_acceptance(items, Decision::Accepted);
    }
}

/// Deciding every change of `items` as their current decision changes
/// nothing.
proof fn lemma_decide_all_same(items: Seq<ItemV>, d: Decision)
    requires
        all_decided(items, d),
    ensures
        decide_all(items, d) == items,
{
    assert forall|i: int| 0 <= i < items.len() implies decide_all(items, d)[i] == items[i] by {
        match items[i] {
            ItemV::Change { .. } => {},
            ItemV::Context(_) => {},
        }
    }
    assert(decide_all(items, d) =~= items);
}

#[derive(Debug)]
pub struct Review {
    items: Vec<Item>,
}

impl View for Review {
    type V = Seq<ItemV>;

    closed spec fn view(&self) -> Seq<ItemV> {
        self.items@.map_values(|it: Item| it@)
    }
}

/// All-pending gives the current text back, and all-accepted gives the
/// imported copy, for the review built from any two texts.
pub proof fn lemma_review_reproduces_both(current: Seq<char>, incoming: Seq<char>)
    ensures
        ({
            let spans = merge_runs(word_changes_of(current, incoming));
            &&& applied_of(decide_all(items_of(spans), Decision::Pending)) == side(spans, DiffKind::Removed)
            &&& applied_of(decide_all(items_of(spans), Decision::Rejected)) == side(spans, DiffKind::Removed)
            &&& applied_of(decide_all(items_of(spans), Decision::Accepted)) == side(spans, DiffKind::Added)
            &&& applied_of(items_of(spans)) == side(spans, DiffKind::Removed)
        }),
{
    let spans = merge_runs(word_changes_of(current, incoming));
    lemma_applied_side(spans, Decision::Pending);
    lemma_applied_side(spans, Decision::Rejected);
    lemma_applied_side(spans, Decision::Accepted);
    lemma_items_pending(spans);
    lemma_decide_all_same(items_of(spans), Decision::Pending);
}

/// The view of a change, as an item.
pub open spec fn change_view(c: Change) -> ItemV {
    ItemV::Change { kind: c.kind, old: c.old@, new: c.new@, decision: c.decision }
}

/// How many of the changes are accepted.
pub open spec fn accepted_in(cs: Seq<ItemV>) -> nat
    decreases cs.len(),
{
    if cs.len() == 0 {
        0
    } else {
        accepted_in(cs.drop_last()) + if cs.last()->decision == Decision::Accepted {
            1nat
        } else {
            0nat
        }
    }
}

/// How many of the changes are decided (accepted or rejected).
pub open spec fn decided_in(cs: Seq<ItemV>) -> nat
    decreases cs.len(),
{
    if cs.len() == 0 {
        0
    } else {
        decided_in(cs.drop_last()) + if cs.last()->decision != Decision::Pending {
            1nat
        } else {
            0nat
        }
    }
}

proof fn lemma_changes_push(items: Seq<ItemV>, it: ItemV)
    ensures
        changes_of(items.push(it)) == if it is Change {
            changes_of(items).push(it)
        } else {
            changes_of(items)
        },
{
    assert(items.push(it).drop_last() =~= items);
}

proof fn lemma_changes_len(items: Seq<ItemV>)
    ensures
        changes_of(items).len() <= items.len(),
        forall|i: int| 0 <= i < changes_of(items).len() ==> (#[trigger] changes_of(items)[i]) is Change,
    decreases items.len(),
{
    if items.len() > 0 {
        lemma_changes_len(items.drop_last());
    }
}

impl Review {
    /// Diff the current document against an imported edited copy into a
    /// sequence of changes, each Pending until decided.
    pub fn from_texts(current: &str, incoming: &str) -> (r: Self)
        ensures
            r@ == items_of(merge_runs(word_changes_of(current@, incoming@))),
            all_decided(r@, Decision::Pending),
            applied_of(r@) == current@,
            applied_of(decide_all(r@, Decision::Accepted)) == incoming@,
            applied_of(decide_all(r@, Decision::Rejected)) == current@,
            side(merge_runs(word_changes_of(current@, incoming@)), DiffKind::Removed) == current@,
            side(merge_runs(word_changes_of(current@, incoming@)), DiffKind::Added) == incoming@,
    {
        let spans = word_diff(current, incoming);
        let ghost sv = span_views(spans@);
        let mut items: Vec<Item> = Vec::new();
        let mut i: usize = 0;
        assert(sv.take(0) =~= Seq::<(DiffKind, Seq<char>)>::empty());
        while i < spans.len()
            invariant
                sv == span_views(spans@),
                i <= spans.len(),
                items@.map_values(|it: Item| it@) == items_of(sv.take(i as int)),
            decreases spans.len() - i,
        {
            let ghost before = items@.map_values(|it: Item| it@);
            proof {
                assert(sv.take(i + 1).drop_last() =~= sv.take(i as int));
                assert(sv.take(i + 1).last() == sv[i as int]);
            }
            let kind = spans[i].kind;
            let text = spans[i].text.as_str();
            if kind == DiffKind::Equal {
                items.push(Item::Context(text.to_string()));
                assert(items@.map_values(|it: Item| it@) =~= before.push(ItemV::Context(text@)));
            } else {
                let n = items.len();
                let extend = n > 0 && match &items[n - 1] {
                    Item::Change(_) => true,
                    Item::Context(_) => false,
                };
                let (mut old, mut new) = if extend {
                    match items.pop() {
                        Some(Item::Change(c)) => (c.old, c.new),
                        _ => (String::new(), String::new()),
                    }
                } else {
                    (String::new(), String::new())
                };
                if kind == DiffKind::Removed {
                    old.append(text);
                } else {
                    new.append(text);
                }
                let ck = if old.as_str().unicode_len() == 0 {
                    ChangeKind::Insert
                } else if new.as_str().unicode_len() == 0 {
                    ChangeKind::Delete
                } else {
                    ChangeKind::Replace
                };
                let ghost cv = ItemV::Change { kind: ck, old: old@, new: new@, decision: Decision::Pending };
                items.push(Item::Change(Change { kind: ck, old, new, decision: Decision::Pending }));
                if extend {
                    assert(items@.map_values(|it: Item| it@) =~= before.update(n - 1, cv));
                } else {
                    assert(items@.map_values(|it: Item| it@) =~= before.push(cv));
                }
            }
            i = i + 1;
        }
        proof {
            assert(sv.take(spans.len() as int) =~= sv);
            lemma_review_reproduces_both(current@, incoming@);
            lemma_items_pending(sv);
        }
        Review { items }
    }

    pub fn changes(&self) -> (r: Vec<&Change>)
        ensures
            r@.map_values(|c: &Change| change_view(*c)) == changes_of(self@),
    {
        let mut r: Vec<&Change> = Vec::new();
        let mut i: usize = 0;
        assert(self@.take(0) =~= Seq::<ItemV>::empty());
        while i < self.items.len()
            invariant
                i <= self.items.len(),
                r@.map_values(|c: &Change| change_view(*c)) == changes_of(self@.take(i as int)),
            decreases self.items.len() - i,
        {
            let ghost before = r@.map_values(|c: &Change| change_view(*c));
            proof {
                assert(self@.take(i + 1) =~= self@.take(i as int).push(self@[i as int]));
                lemma_changes_push(self@.take(i as int), self@[i as int]);
            }
            match &self.items[i] {
                Item::Change(c) => {
                    r.push(c);
                    assert(r@.map_values(|c: &Change| change_view(*c)) =~= before.push(change_view(*c)));
                },
                Item::Context(_) => {},
            }
            i = i + 1;
        }
        assert(self@.take(self.items.len() as int) =~= self@);
        r
    }

    pub fn change_count(&self) -> (n: usize)
        ensures
            n == changes_of(self@).len(),
    {
        self.changes().len()
    }

    pub fn is_empty(&self) -> (b: bool)
        ensures
            b == (changes_of(self@).len() == 0),
    {
        self.change_count() == 0
    }

    pub fn accepted_count(&self) -> (n: usize)
        ensures
            n == accepted_in(changes_of(self@)),
    {
        let cs = self.changes();
        let ghost cv = cs@.map_values(|c: &Change| change_view(*c));
        let mut n: usize = 0;
        let mut i: usize = 0;
        assert(cv.take(0) =~= Seq::<ItemV>::empty());
        while i < cs.len()
            invariant
                cv == cs@.map_values(|c: &Change| change_view(*c)),
                i <= cs.len(),
                n <= i,
                n == accepted_in(cv.take(i as int)),
            decreases cs.len() - i,
        {
            assert(cv.take(i + 1).drop_last() =~= cv.take(i as int));
            assert(cv.take(i + 1).last() == cv[i as int]);
            assert(cv[i as int] == change_view(*cs@[i as int]));
            if cs[i].decision == Decision::Accepted {
                n = n + 1;
            }
            i = i + 1;
        }
        assert(cv.take(cs.len() as int) =~= cv);
        n
    }

    pub fn decided_count(&self) -> (n: usize)
        ensures
            n == decided_in(changes_of(self@)),
    {
        let cs = self.changes();
        let ghost cv = cs@.map_values(|c: &Change| change_view(*c));
        let mut n: usize = 0;
        let mut i: usize = 0;
        assert(cv.take(0) =~= Seq::<ItemV>::empty());
        while i < cs.len()
            invariant
                cv == cs@.map_values(|c: &Change| change_view(*c)),
                i <= cs.len(),
                n <= i,
                n == decided_in(cv.take(i as int)),
            decreases cs.len() - i,
        {
            assert(cv.take(i + 1).drop_last() =~= cv.take(i as int));
            assert(cv.take(i + 1).last() == cv[i as int]);
            assert(cv[i as int] == change_view(*cs@[i as int]));
            if cs[i].decision != Decision::Pending {
                n = n + 1;
            }
            i = i + 1;
        }
        assert(cv.take(cs.len() as int) =~= cv);
        n
    }

    /// The nth change (by change order, skipping context).
    pub fn change(&self, index: usize) -> (r: Option<&Change>)
        ensures
            match r {
                Some(c) => index < changes_of(self@).len() && change_view(*c) == changes_of(self@)[index as int],
                None => index >= changes_of(self@).len(),
            },
    {
        let cs = self.changes();
        if index < cs.len() {
            Some(cs[index])
        } else {
            None
        }
    }

    /// Decide the nth change.
    pub fn set_decision(&mut self, index: usize, decision: Decision)
        ensures
            final(self)@ == decide_nth(old(self)@, index as int, decision),
    {
        let ghost items0 = self@;
        let mut n: usize = 0;
        let mut i: usize = 0;
        let mut at: Option<usize> = None;
        assert(items0.take(0) =~= Seq::<ItemV>::empty());
        while i < self.items.len() && at.is_none()
            invariant
                i <= self.items.len(),
                self@ == items0,
                n <= index,
                at is None ==> n == changes_of(items0.take(i as int)).len(),
                at matches Some(j) ==> j < items0.len() && items0[j as int] is Change
                    && item_index_of_change(items0, index as int) == j && index < changes_of(
                    items0,
                ).len(),
            decreases self.items.len() - i,
        {
            proof {
                assert(items0.take(i + 1) =~= items0.take(i as int).push(items0[i as int]));
                lemma_changes_push(items0.take(i as int), items0[i as int]);
            }
            let is_change = match &self.items[i] {
                Item::Change(_) => true,
                Item::Context(_) => false,
            };
            if is_change {
                if n == index {
                    proof {
                        lemma_index_of_change(items0, i as int, index as int);
                    }
                    at = Some(i);
                } else {
                    n = n + 1;
                }
            }
            i = i + 1;
        }
        match at {
            Some(j) => {
                let mut item = self.items.remove(j);
                if let Item::Change(ref mut c) = item {
                    c.decision = decision;
                }
                let ghost iv = item@;
                self.items.insert(j, item);
                assert(self@ =~= items0.update(j as int, iv));
            },
            None => {
                proof {
                    assert(items0.take(self.items.len() as int) =~= items0);
                }
            },
        }
    }

    /// Decide every change at once (accept-all / reject-all).
    pub fn set_all(&mut self, decision: Decision)
        ensures
            final(self)@ == decide_all(old(self)@, decision),
    {
        let ghost items0 = self@;
        let mut i: usize = 0;
        while i < self.items.len()
            invariant
                i <= self.items.len() == items0.len(),
                forall|k: int| 0 <= k < i ==> self@[k] == decide_all(items0, decision)[k],
                forall|k: int| i <= k < self.items.len() ==> self@[k] == items0[k],
            decreases self.items.len() - i,
        {
            let mut item = self.items.remove(i);
            if let Item::Change(ref mut c) = item {
                c.decision = decision;
            }
            self.items.insert(i, item);
            i = i + 1;
        }
        assert(self@ =~= decide_all(items0, decision));
    }

    /// The document text for the current decisions: accepted changes take the
    /// incoming text, rejected and still-pending changes keep the current
    /// text.
    pub fn applied(&self) -> (r: String)
        ensures
            r@ == applied_of(self@),
    {
        let mut out = String::new();
        let mut i: usize = 0;
        assert(self@.take(0) =~= Seq::<ItemV>::empty());
        while i < self.items.len()
            invariant
                i <= self.items.len(),
                out@ == applied_of(self@.take(i as int)),
            decreases self.items.len() - i,
        {
            assert(self@.take(i + 1).drop_last() =~= self@.take(i as int));
            assert(self@.take(i + 1).last() == self@[i as int]);
            match &self.items[i] {
                Item::Context(text) => out.append(text.as_str()),
                Item::Change(change) => {
                    if change.decision == Decision::Accepted {
                        out.append(change.new.as_str());
                    } else {
                        out.append(change.old.as_str());
                    }
                },
            }
            i = i + 1;
        }
        assert(self@.take(self.items.len() as int) =~= self@);
        out
    }
}

/// When the change with index `n` sits at item `i` (the changes before `i`
/// number `n`), that is where deciding it acts.
proof fn lemma_index_of_change(items: Seq<ItemV>, i: int, n: int)
    requires
        0 <= i < items.len(),
        items[i] is Change,
        changes_of(items.take(i)).len() == n,
    ensures
        item_index_of_change(items, n) == i,
        n < changes_of(items).len(),
    decreases items.len(),
{
    lemma_changes_grow(items, i + 1);
    assert(items.take(i + 1) =~= items.take(i).push(items[i]));
    lemma_changes_push(items.take(i), items[i]);
    if i == items.len() - 1 {
        assert(items.drop_last() =~= items.take(i));
    } else {
        assert(items.drop_last().take(i) =~= items.take(i));
        assert(items.drop_last().take(i + 1) =~= items.take(i + 1));
        lemma_index_of_change(items.drop_last(), i, n);
        lemma_changes_grow(items.drop_last(), i + 1);
        assert(items.push(items.last()) != items || true);
        assert(items.drop_last().push(items.last()) =~= items);
        lemma_changes_push(items.drop_last(), items.last());
    }
}

/// More items never hold fewer changes.
proof fn lemma_changes_grow(items: Seq<ItemV>, k: int)
    requires
        0 <= k <= items.len(),
    ensures
        changes_of(items.take(k)).len() <= changes_of(items).len(),
    decreases items.len() - k,
{
    if k < items.len() {
        assert(items.take(k + 1) =~= items.take(k).push(items[k]));
        lemma_changes_push(items.take(k), items[k]);
        lemma_changes_grow(items, k + 1);
    } else {
        assert(items.take(k) =~= items);
    }
}

} // verus!
