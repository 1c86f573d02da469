//! Publishing to a Notion page, as decisions. Append mode sends the blocks
//! in batches of at most 100 (the API's limit); replace mode first lists
//! the page's children page by page, deletes each, then appends. The
//! front-end performs each request and reports what came back; this module
//! says what to do next.

use vstd::prelude::*;
use crate::text::{chars_of, string_of, append_chars, str_eq};

verus! {

/// How a deploy treats what the page already holds.
#[derive(Debug, Clone, Copy, PartialEq, Eq, Structural)]
pub enum PublishMode {
    Append,
    Replace,
}

/// The mode named on the command line: `"replace"`, else append.
pub fn parse_mode(mode: &str) -> (m: PublishMode)
    ensures
        m == if mode@ == "replace"@ {
            PublishMode::Replace
        } else {
            PublishMode::Append
        },
{
    if str_eq(mode, "replace") {
        PublishMode::Replace
    } else {
        PublishMode::Append
    }
}

/// The page's URL: `https://notion.so/` and the id without its dashes.
pub open spec fn page_url_spec(page_id: Seq<char>) -> Seq<char> {
    "https://notion.so/"@ + page_id.filter(|c: char| c != '-')
}

pub fn page_url(page_id: &str) -> (r: String)
    ensures
        r@ == page_url_spec(page_id@),
{
    let mut out = chars_of("https://notion.so/");
    let ghost head = out@;
    let id = chars_of(page_id);
    let mut i: usize = 0;
    assert(id@.take(0) =~= Seq::<char>::empty());
    reveal(Seq::filter);
    while i < id.len()
        invariant
            i <= id@.len(),
            id@ == page_id@,
            head == "https://notion.so/"@,
            out@ == head + id@.take(i as int).filter(|c: char| c != '-'),
        decreases id@.len() - i,
    {
        assert(id@.take(i + 1).drop_last() =~= id@.take(i as int));
        assert(id@.take(i + 1).last() == id@[i as int]);
        reveal(Seq::filter);
        if id[i] != '-' {
            let ghost before = out@;
            out.push(id[i]);
            assert(out@ =~= head + id@.take(i + 1).filter(|c: char| c != '-'));
        }
        i = i + 1;
    }
    assert(id@.take(id@.len() as int) =~= id@);
    string_of(out.as_slice())
}

/// The most blocks one append request carries.
pub const BATCH: usize = 100;

#[derive(Debug, Clone, Copy, PartialEq, Eq, Structural)]
pub enum Phase {
    Listing,
    Deleting,
    Appending,
    Finished,
}

/// What the front-end does next.
#[derive(Debug)]
pub enum DeployAction {
    /// Fetch a page of the page's children (from `cursor` on).
    ListChildren { cursor: Option<String> },
    /// Delete one block.
    DeleteBlock { id: String },
    /// Append blocks `start..end` of the converted document.
    AppendBatch { start: usize, end: usize },
    /// All done: the page's URL.
    Done { url: String },
    /// A request failed; `message` says which and why.
    Fail { message: String },
}

/// What came back from the last action.
#[derive(Debug)]
pub enum DeployEvent {
    /// A page of children: their ids, whether more follow, and where.
    Listed { ids: Vec<String>, has_more: bool, next_cursor: Option<String> },
    Deleted,
    Appended,
    /// The request failed with this text.
    Failed { text: String },
}

pub struct Deploy {
    page_id: String,
    total: usize,
    phase: Phase,
    ids: Vec<String>,
    deleted: usize,
    sent: usize,
}

pub enum ActionV {
    ListChildren { cursor: Option<Seq<char>> },
    DeleteBlock { id: Seq<char> },
    AppendBatch { start: nat, end: nat },
    Done { url: Seq<char> },
    Fail { message: Seq<char> },
}

pub enum EventV {
    Listed { ids: Seq<Seq<char>>, has_more: bool, next_cursor: Option<Seq<char>> },
    Deleted,
    Appended,
    Failed { text: Seq<char> },
}

pub struct DeployV {
    pub page: Seq<char>,
    pub total: nat,
    pub phase: Phase,
    pub ids: Seq<Seq<char>>,
    pub deleted: nat,
    pub sent: nat,
}

pub open spec fn strs(v: Seq<String>) -> Seq<Seq<char>> {
    v.map_values(|s: String| s@)
}

pub open spec fn opt_s(o: Option<String>) -> Option<Seq<char>> {
    match o {
        Some(s) => Some(s@),
        None => None,
    }
}

impl View for DeployAction {
    type V = ActionV;

    open spec fn view(&self) -> ActionV {
        match self {
            DeployAction::ListChildren { cursor } => ActionV::ListChildren { cursor: opt_s(*cursor) },
            DeployAction::DeleteBlock { id } => ActionV::DeleteBlock { id: id@ },
            DeployAction::AppendBatch { start, end } => ActionV::AppendBatch { start: *start as nat, end: *end as nat },
            DeployAction::Done { url } => ActionV::Done { url: url@ },
            DeployAction::Fail { message } => ActionV::Fail { message: message@ },
        }
    }
}

impl View for DeployEvent {
    type V = EventV;

    open spec fn view(&self) -> EventV {
        match self {
            DeployEvent::Listed { ids, has_more, next_cursor } => EventV::Listed {
                ids: strs(ids@),
                has_more: *has_more,
                next_cursor: opt_s(*next_cursor),
            },
            DeployEvent::Deleted => EventV::Deleted,
            DeployEvent::Appended => EventV::Appended,
            DeployEvent::Failed { text } => EventV::Failed { text: text@ },
        }
    }
}

impl View for Deploy {
    type V = DeployV;

    closed spec fn view(&self) -> DeployV {
        DeployV {
            page: self.page_id@,
            total: self.total as nat,
            phase: self.phase,
            ids: strs(self.ids@),
            deleted: self.deleted as nat,
            sent: self.sent as nat,
        }
    }
}

/// Where appending starts or goes on from `s.sent`: the next batch, or done
/// when every block went out.
pub open spec fn next_append(s: DeployV) -> (DeployV, ActionV) {
    if s.sent >= s.total {
        (DeployV { phase: Phase::Finished, ..s }, ActionV::Done { url: page_url_spec(s.page) })
    } else {
        let end = if s.sent + BATCH <= s.total { s.sent + BATCH } else { s.total as int };
        (DeployV { phase: Phase::Appending, ..s }, ActionV::AppendBatch { start: s.sent, end: end as nat })
    }
}

/// After the listing: delete the next block, or start appending.
pub open spec fn next_delete(s: DeployV) -> (DeployV, ActionV) {
    if s.deleted < s.ids.len() {
        (DeployV { phase: Phase::Deleting, ..s }, ActionV::DeleteBlock { id: s.ids[s.deleted as int] })
    } else {
        next_append(s)
    }
}

pub open spec fn start_spec(page: Seq<char>, mode: PublishMode, total: nat) -> (DeployV, ActionV) {
    let s = DeployV { page, total, phase: Phase::Listing, ids: Seq::empty(), deleted: 0, sent: 0 };
    match mode {
        PublishMode::Replace => (s, ActionV::ListChildren { cursor: None }),
        PublishMode::Append => next_append(s),
    }
}

/// What a failure in `phase` is reported as.
pub open spec fn failure(s: DeployV, text: Seq<char>) -> Seq<char> {
    match s.phase {
        Phase::Listing => "Failed to get page blocks: "@ + text,
        Phase::Deleting => "Failed to delete block "@ + s.ids[s.deleted as int] + ": "@ + text,
        _ => "Failed to append blocks: "@ + text,
    }
}

/// The deploy's step on what came back.
pub open spec fn deploy_step(s: DeployV, e: EventV) -> (DeployV, ActionV) {
    match e {
        EventV::Failed { text } => (DeployV { phase: Phase::Finished, ..s }, ActionV::Fail { message: failure(s, text) }),
        EventV::Listed { ids, has_more, next_cursor } => {
            let s1 = DeployV { ids: s.ids + ids, ..s };
            if has_more && next_cursor is Some {
                (s1, ActionV::ListChildren { cursor: next_cursor })
            } else {
                next_delete(s1)
            }
        },
        EventV::Deleted => next_delete(DeployV { deleted: s.deleted + 1, ..s }),
        EventV::Appended => {
            let end = if s.sent + BATCH <= s.total { s.sent + BATCH } else { s.total as int };
            next_append(DeployV { sent: end as nat, ..s })
        },
    }
}

/// The step fits the phase: a page of children while listing, a deletion
/// while deleting, an append while appending; a failure any time before
/// the end.
pub open spec fn expects(s: DeployV, e: EventV) -> bool {
    match e {
        EventV::Listed { .. } => s.phase == Phase::Listing,
        EventV::Deleted => s.phase == Phase::Deleting,
        EventV::Appended => s.phase == Phase::Appending,
        EventV::Failed { .. } => s.phase != Phase::Finished,
    }
}

fn concat3(a: &str, b: &Vec<char>, c: &str) -> (r: String)
    ensures
        r@ == a@ + b@ + c@,
{
    let mut v = chars_of(a);
    append_chars(&mut v, b);
    let cv = chars_of(c);
    append_chars(&mut v, &cv);
    string_of(v.as_slice())
}

fn clone_string(s: &String) -> (r: String)
    ensures
        r@ == s@,
{
    s.clone()
}

impl Deploy {
    pub closed spec fn well_formed(&self) -> bool {
        &&& self.deleted <= self.ids@.len()
        &&& self.sent <= self.total
        &&& self.phase == Phase::Deleting ==> self.deleted < self.ids@.len()
    }

    fn appending(&mut self) -> (a: DeployAction)
        requires
            old(self).deleted <= old(self).ids@.len(),
            old(self).sent <= old(self).total,
        ensures
            final(self).well_formed(),
            (final(self)@, a@) == next_append(old(self)@),
    {
        if self.sent >= self.total {
            self.phase = Phase::Finished;
            DeployAction::Done { url: page_url(self.page_id.as_str()) }
        } else {
            let end = if self.total - self.sent >= BATCH {
                self.sent + BATCH
            } else {
                self.total
            };
            self.phase = Phase::Appending;
            DeployAction::AppendBatch { start: self.sent, end }
        }
    }

    fn deleting(&mut self) -> (a: DeployAction)
        requires
            old(self).deleted <= old(self).ids@.len(),
            old(self).sent <= old(self).total,
        ensures
            final(self).well_formed(),
            (final(self)@, a@) == next_delete(old(self)@),
    {
        if self.deleted < self.ids.len() {
            self.phase = Phase::Deleting;
            let id = clone_string(&self.ids[self.deleted]);
            DeployAction::DeleteBlock { id }
        } else {
            self.appending()
        }
    }

    /// Begin publishing `total` converted blocks to `page_id` in `mode`.
    pub fn start(page_id: &str, mode: PublishMode, total: usize) -> (r: (Self, DeployAction))
        ensures
            r.0.well_formed(),
            (r.0@, r.1@) == start_spec(page_id@, mode, total as nat),
    {
        let pv = chars_of(page_id);
        let mut d = Deploy {
            page_id: string_of(pv.as_slice()),
            total,
            phase: Phase::Listing,
            ids: Vec::new(),
            deleted: 0,
            sent: 0,
        };
        assert(d@.ids =~= Seq::<Seq<char>>::empty());
        match mode {
            PublishMode::Replace => (d, DeployAction::ListChildren { cursor: None }),
            PublishMode::Append => {
                let a = d.appending();
                (d, a)
            },
        }
    }

    pub fn phase(&self) -> (p: Phase)
        ensures
            p == self@.phase,
    {
        self.phase
    }

    /// Take what came back from the last action; say what to do next.
    pub fn step(&mut self, e: DeployEvent) -> (a: DeployAction)
        requires
            old(self).well_formed(),
            expects(old(self)@, e@),
        ensures
            final(self).well_formed(),
            (final(self)@, a@) == deploy_step(old(self)@, e@),
    {
        match e {
            DeployEvent::Failed { text } => {
                let tv = chars_of(text.as_str());
                let message = match self.phase {
                    Phase::Listing => concat3("Failed to get page blocks: ", &tv, ""),
                    Phase::Deleting => {
                        let mut v = chars_of(self.ids[self.deleted].as_str());
                        v.push(':');
                        v.push(' ');
                        append_chars(&mut v, &tv);
                        let r = concat3("Failed to delete block ", &v, "");
                        proof {
                            reveal_strlit(": ");
                            reveal_strlit("");
                        }
                        r
                    },
                    _ => concat3("Failed to append blocks: ", &tv, ""),
                };
                proof {
                    reveal_strlit("");
                }
                self.phase = Phase::Finished;
                assert(message@ =~= failure(old(self)@, tv@));
                DeployAction::Fail { message }
            },
            DeployEvent::Listed { ids, has_more, next_cursor } => {
                let ghost before = strs(self.ids@);
                let mut ids = ids;
                let ghost added = strs(ids@);
                self.ids.append(&mut ids);
                assert(strs(self.ids@) =~= before + added);
                if has_more && next_cursor.is_some() {
                    DeployAction::ListChildren { cursor: next_cursor }
                } else {
                    self.deleting()
                }
            },
            DeployEvent::Deleted => {
                let n = self.ids.len();
                assert(self.deleted < n);
                self.deleted = self.deleted + 1;
                self.deleting()
            },
            DeployEvent::Appended => {
                let end = if self.total - self.sent >= BATCH {
                    self.sent + BATCH
                } else {
                    self.total
                };
                self.sent = end;
                self.appending()
            },
        }
    }
}

/// Appending goes out in batches of at most `BATCH` blocks, each starting
/// where the blocks sent so far end, and finishes exactly when every block
/// was sent.
pub proof fn lemma_append_batches(s: DeployV)
    requires
        s.sent <= s.total,
    ensures
        match next_append(s).1 {
            ActionV::AppendBatch { start, end } => start == s.sent && start < end && end <= start + BATCH
                && end <= s.total,
            ActionV::Done { url } => s.sent == s.total && url == page_url_spec(s.page),
            _ => false,
        },
{
}

/// An acknowledged batch moves the count of sent blocks to that batch's
/// end: the next batch starts right after it.
pub proof fn lemma_appended_moves_on(s: DeployV)
    requires
        s.sent < s.total,
    ensures
        ({
            let batch_end = next_append(s).1->end;
            &&& deploy_step(s, EventV::Appended).0.sent == batch_end
            &&& next_append(s).0.sent == s.sent
            &&& (deploy_step(s, EventV::Appended).1 matches ActionV::AppendBatch { start, end } ==> start == batch_end)
        }),
{
}

/// A replacing deploy deletes every listed block, in order, before it
/// appends anything.
pub proof fn lemma_deletes_before_appending(s: DeployV)
    requires
        s.deleted < s.ids.len(),
    ensures
        next_delete(s).1 == (ActionV::DeleteBlock { id: s.ids[s.deleted as int] }),
        next_delete(s).0.phase == Phase::Deleting,
{
}

} // verus!
