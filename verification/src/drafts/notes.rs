//! Inline notes — a writer reviewing their own work in preview. Stored beside
//! the document in the same sidecar as drafts (the front-end reads and writes
//! the file). Each note anchors to a source span plus a quote of the anchored
//! text, so it survives edits by best-effort re-anchoring; a note whose quote
//! has vanished is kept and flagged detached, never silently dropped.

use vstd::prelude::*;
use std::path::PathBuf;
use vstd::utf8::encode_utf8;
use vstd::string::StringSliceAdditionalSpecFns;
use crate::hash::{short_hash_hex, short_hash};
use crate::text::{str_eq, hex_padded, decimal, append_chars, string_of, chars_of, hex_of, dec_of, zero_pad};

verus! {

#[derive(Debug, Clone, Copy, PartialEq, Eq, Structural)]
pub enum NoteState {
    Open,
    Resolved,
}

#[derive(Debug, Clone)]
pub struct Note {
    pub id: String,
    /// Byte offset of the anchor in the source. Kept current by re-anchoring.
    pub start: usize,
    /// Byte offset just past the anchor (`start + quote.len()`). Informational.
    pub end: usize,
    /// The anchored source text — used to relocate the note after edits.
    pub quote: String,
    pub body: String,
    pub created_ms: u64,
    pub state: NoteState,
    /// The quote could not be found on the last re-anchor: kept, shown
    /// detached at its stale position.
    pub detached: bool,
}

/// A note as values.
pub struct NoteV {
    pub id: Seq<char>,
    pub start: nat,
    pub end: nat,
    pub quote: Seq<char>,
    pub body: Seq<char>,
    pub created_ms: u64,
    pub state: NoteState,
    pub detached: bool,
}

impl View for Note {
    type V = NoteV;

    open spec fn view(&self) -> NoteV {
        NoteV {
            id: self.id@,
            start: self.start as nat,
            end: self.end as nat,
            quote: self.quote@,
            body: self.body@,
            created_ms: self.created_ms,
            state: self.state,
            detached: self.detached,
        }
    }
}

impl Note {
    pub fn is_open(&self) -> (b: bool)
        ensures
            b == (self.state == NoteState::Open),
    {
        self.state == NoteState::Open
    }
}

/// The id a note added at `now_ms` for `start` and `body` gets:
/// `n-<now as 13 hex digits>-<4 hex digits of SHA-256("<start>:<body>")>`.
pub open spec fn note_id(now_ms: u64, start: nat, body: Seq<char>) -> Seq<char> {
    seq!['n', '-'] + zero_pad(hex_of(now_ms as nat), 13) + seq!['-'] + short_hash(
        encode_utf8(dec_of(start) + seq![':'] + body),
        2,
    )
}

/// Non-overlapping occurrences of `needle` in `hay` from `i` on, left to
/// right (byte offsets).
pub open spec fn occurrences(hay: Seq<u8>, needle: Seq<u8>, i: int) -> Seq<int>
    decreases hay.len() - i,
{
    if needle.len() == 0 || i < 0 || i + needle.len() > hay.len() {
        Seq::empty()
    } else if hay.subrange(i, i + needle.len()) == needle {
        seq![i] + occurrences(hay, needle, i + needle.len())
    } else {
        occurrences(hay, needle, i + 1)
    }
}

pub open spec fn dist(a: int, b: int) -> int {
    if a >= b {
        a - b
    } else {
        b - a
    }
}

/// The first of `ps` nearest to `origin`.
pub open spec fn nearest_of(ps: Seq<int>, origin: int) -> Option<int>
    decreases ps.len(),
{
    if ps.len() == 0 {
        None
    } else {
        match nearest_of(ps.drop_last(), origin) {
            Some(b) => if dist(ps.last(), origin) < dist(b, origin) {
                Some(ps.last())
            } else {
                Some(b)
            },
            None => Some(ps.last()),
        }
    }
}

/// The note after re-anchoring to `src`: moved to the nearest occurrence of
/// its quote, or detached when the quote is gone (an empty quote stays).
pub open spec fn reanchored(n: NoteV, src: Seq<u8>) -> NoteV {
    let q = encode_utf8(n.quote);
    if n.quote.len() == 0 {
        n
    } else {
        match nearest_of(occurrences(src, q, 0), n.start as int) {
            Some(p) => NoteV { start: p as nat, end: (p + q.len()) as nat, detached: false, ..n },
            None => NoteV { detached: true, ..n },
        }
    }
}

/// Every note re-anchored to `src`.
pub open spec fn reanchored_all(ns: Seq<NoteV>, src: Seq<u8>) -> Seq<NoteV> {
    ns.map_values(|n: NoteV| reanchored(n, src))
}

/// Re-anchoring changes the note.
pub open spec fn reanchor_changes(n: NoteV, src: Seq<u8>) -> bool {
    let q = encode_utf8(n.quote);
    n.quote.len() > 0 && match nearest_of(occurrences(src, q, 0), n.start as int) {
        Some(p) => n.detached || n.start != p,
        None => !n.detached,
    }
}

/// The index of the first note with `id`.
pub open spec fn index_of_id(ns: Seq<NoteV>, id: Seq<char>) -> Option<int>
    decreases ns.len(),
{
    if ns.len() == 0 {
        None
    } else if ns[0].id == id {
        Some(0)
    } else {
        match index_of_id(ns.drop_first(), id) {
            Some(i) => Some(i + 1),
            None => None,
        }
    }
}

/// The notes whose id is not `id`, in order.
pub open spec fn without_id(ns: Seq<NoteV>, id: Seq<char>) -> Seq<NoteV> {
    ns.filter(|n: NoteV| n.id != id)
}

/// The other of the two states.
pub open spec fn flipped(s: NoteState) -> NoteState {
    match s {
        NoteState::Open => NoteState::Resolved,
        NoteState::Resolved => NoteState::Open,
    }
}

/// The notes after flipping the state of the first note with `id`.
pub open spec fn toggled(ns: Seq<NoteV>, id: Seq<char>) -> Seq<NoteV> {
    match index_of_id(ns, id) {
        Some(i) => ns.update(i, NoteV { state: flipped(ns[i].state), ..ns[i] }),
        None => ns,
    }
}

pub struct NoteStore {
    /// `<doc dir>/.polaris/<file-name>`
    root: PathBuf,
    notes: Vec<Note>,
}

impl View for NoteStore {
    type V = Seq<NoteV>;

    closed spec fn view(&self) -> Seq<NoteV> {
        self.notes@.map_values(|n: Note| n@)
    }
}

/// `needle` occurs at byte `i` of `hay`.
fn bytes_at(hay: &[u8], needle: &[u8], i: usize) -> (b: bool)
    requires
        i + needle@.len() <= hay@.len(),
    ensures
        b == (hay@.subrange(i as int, i + needle@.len()) == needle@),
{
    let hl = hay.len();
    let mut k: usize = 0;
    while k < needle.len()
        invariant
            hl == hay@.len(),
            k <= needle@.len(),
            i + needle@.len() <= hay@.len(),
            forall|j: int| 0 <= j < k ==> hay@[i + j] == needle@[j],
        decreases needle.len() - k,
    {
        if hay[i + k] != needle[k] {
            assert(hay@.subrange(i as int, i + needle@.len())[k as int] != needle@[k as int]);
            return false;
        }
        k = k + 1;
    }
    assert(hay@.subrange(i as int, i + needle@.len()) =~= needle@);
    true
}

/// The occurrence of `needle` in `haystack` nearest to `origin` (byte
/// offset); the first of equally near ones.
fn nearest(haystack: &str, needle: &str, origin: usize) -> (r: Option<usize>)
    requires
        needle@.len() > 0,
    ensures
        match nearest_of(occurrences(haystack.spec_bytes(), needle.spec_bytes(), 0), origin as int) {
            Some(p) => r == Some(p as usize) && 0 <= p && p + needle.spec_bytes().len() <= haystack.spec_bytes().len(),
            None => r is None,
        },
{
    let hay = haystack.as_bytes();
    let nd = needle.as_bytes();
    let n = nd.len();
    proof {
        vstd::utf8::encode_utf8_decode_utf8(needle@);
        if nd@.len() == 0 {
            assert(nd@ =~= Seq::<u8>::empty());
            assert(vstd::utf8::decode_utf8(Seq::<u8>::empty()) =~= Seq::<char>::empty());
        }
    }
    let ghost all = occurrences(hay@, nd@, 0);
    let mut best: Option<usize> = None;
    let mut found: Vec<usize> = Vec::new();
    let mut i: usize = 0;
    while i <= hay.len() && n <= hay.len() - i
        invariant
            n == nd@.len() > 0,
            all == occurrences(hay@, nd@, 0),
            found@.map_values(|x: usize| x as int) + occurrences(hay@, nd@, i as int) == all,
            match nearest_of(found@.map_values(|x: usize| x as int), origin as int) {
                Some(p) => best == Some(p as usize) && 0 <= p && p + n <= hay@.len(),
                None => best is None,
            },
        decreases hay.len() + 1 - i,
    {
        let ghost fv = found@.map_values(|x: usize| x as int);
        if bytes_at(hay, nd, i) {
            let better = match best {
                Some(b) => {
                    let d_new = if i >= origin { i - origin } else { origin - i };
                    let d_old = if b >= origin { b - origin } else { origin - b };
                    d_new < d_old
                },
                None => true,
            };
            if better {
                best = Some(i);
            }
            found.push(i);
            proof {
                let fv2 = found@.map_values(|x: usize| x as int);
                assert(fv2 =~= fv.push(i as int));
                assert(fv2.drop_last() =~= fv);
                assert(fv.push(i as int) + occurrences(hay@, nd@, i + n) =~= fv + (seq![i as int] + occurrences(hay@, nd@, i + n)));
            }
            i = i + n;
        } else {
            i = i + 1;
        }
    }
    proof {
        let fv = found@.map_values(|x: usize| x as int);
        assert(occurrences(hay@, nd@, i as int) =~= Seq::<int>::empty());
        assert(fv + Seq::<int>::empty() =~= fv);
    }
    best
}

impl NoteStore {
    /// A store for the notes already read from the sidecar at `root`.
    pub fn new(root: PathBuf, notes: Vec<Note>) -> (s: Self)
        ensures
            s@ == notes@.map_values(|n: Note| n@),
            s.root_value() == root,
    {
        NoteStore { root, notes }
    }

    /// The sidecar directory.
    pub closed spec fn root_value(&self) -> PathBuf {
        self.root
    }

    pub fn root(&self) -> (r: &PathBuf)
        ensures
            *r == self.root_value(),
    {
        &self.root
    }

    pub fn notes(&self) -> (r: &[Note])
        ensures
            r@.map_values(|n: Note| n@) == self@,
    {
        self.notes.as_slice()
    }

    pub fn is_empty(&self) -> (b: bool)
        ensures
            b == (self@.len() == 0),
    {
        self.notes.len() == 0
    }

    /// Add a note anchored to `[start, end)` with `quote` as its anchor text.
    /// Returns the new note's id.
    pub fn add(&mut self, start: usize, end: usize, quote: String, body: String, now_ms: u64) -> (id: String)
        ensures
            id@ == note_id(now_ms, start as nat, body@),
            final(self)@ == old(self)@.push(
                NoteV {
                    id: id@,
                    start: start as nat,
                    end: end as nat,
                    quote: quote@,
                    body: body@,
                    created_ms: now_ms,
                    state: NoteState::Open,
                    detached: false,
                },
            ),
            final(self).root_value() == old(self).root_value(),
    {
        let mut key = decimal(start as u64);
        key.push(':');
        let b = chars_of(body.as_str());
        append_chars(&mut key, &b);
        let key_s = string_of(key.as_slice());
        let digest = short_hash_hex(key_s.as_str().as_bytes(), 2);
        let mut id = vec!['n', '-'];
        let stamp = hex_padded(now_ms, 13);
        append_chars(&mut id, &stamp);
        id.push('-');
        append_chars(&mut id, &digest);
        let id1 = string_of(id.as_slice());
        let id2 = string_of(id.as_slice());
        proof {
            assert(key@ =~= dec_of(start as nat) + seq![':'] + body@);
            assert(id@ =~= note_id(now_ms, start as nat, body@));
        }
        let ghost before = self@;
        self.notes.push(
            Note {
                id: id1,
                start,
                end,
                quote,
                body,
                created_ms: now_ms,
                state: NoteState::Open,
                detached: false,
            },
        );
        assert(self@ =~= before.push(self.notes@.last()@));
        id2
    }

    fn position(&self, id: &str) -> (r: Option<usize>)
        ensures
            match index_of_id(self@, id@) {
                Some(i) => r is Some && r->0 == i && i < self@.len(),
                None => r is None,
            },
    {
        assert(self@.skip(0) =~= self@);
        let mut i: usize = 0;
        while i < self.notes.len()
            invariant
                i <= self.notes.len(),
                index_of_id(self@.skip(i as int), id@) matches Some(k) ==> index_of_id(self@, id@) == Some(k + i),
                index_of_id(self@.skip(i as int), id@) is None ==> index_of_id(self@, id@) is None,
            decreases self.notes.len() - i,
        {
            assert(self@.skip(i as int).drop_first() =~= self@.skip(i + 1));
            assert(self@.skip(i as int)[0] == self@[i as int]);
            if str_eq(self.notes[i].id.as_str(), id) {
                return Some(i);
            }
            i = i + 1;
        }
        None
    }

    /// Replace the body of the note with `id` (if there is one).
    pub fn edit(&mut self, id: &str, body: String)
        ensures
            final(self).root_value() == old(self).root_value(),
            match index_of_id(old(self)@, id@) {
                Some(i) => final(self)@ == old(self)@.update(i, NoteV { body: body@, ..old(self)@[i] }),
                None => final(self)@ == old(self)@,
            },
    {
        let found = self.position(id);
        if let Some(i) = found {
            let ghost before = self@;
            proof {
                match index_of_id(before, id@) {
                    Some(k) => assert(k == i),
                    None => assert(false),
                }
            }
            let mut note = self.notes.remove(i);
            note.body = body;
            assert(note@.body == body@);
            self.notes.insert(i, note);
            assert(self@ =~= before.update(i as int, NoteV { body: body@, ..before[i as int] }));
            assert(index_of_id(before, id@) == Some(i as int));
        }
    }

    /// Flip a note between open and resolved (kept either way).
    pub fn toggle_resolved(&mut self, id: &str)
        ensures
            final(self).root_value() == old(self).root_value(),
            final(self)@ == toggled(old(self)@, id@),
    {
        let found = self.position(id);
        if let Some(i) = found {
            let ghost before = self@;
            proof {
                match index_of_id(before, id@) {
                    Some(k) => assert(k == i),
                    None => assert(false),
                }
            }
            let mut note = self.notes.remove(i);
            note.state = match note.state {
                NoteState::Open => NoteState::Resolved,
                NoteState::Resolved => NoteState::Open,
            };
            let ghost st = note@.state;
            self.notes.insert(i, note);
            assert(self@ =~= before.update(i as int, NoteV { state: st, ..before[i as int] }));
            assert(index_of_id(before, id@) == Some(i as int));
        }
    }

    /// Remove every note with `id`.
    pub fn remove(&mut self, id: &str)
        ensures
            final(self).root_value() == old(self).root_value(),
            final(self)@ == without_id(old(self)@, id@),
    {
        let ghost before = self@;
        let mut kept: Vec<Note> = Vec::new();
        let mut rest: Vec<Note> = Vec::new();
        std::mem::swap(&mut rest, &mut self.notes);
        let n = rest.len();
        let mut i: usize = 0;
        assert(before.take(0) =~= Seq::<NoteV>::empty());
        while i < n
            invariant
                n == before.len(),
                i <= n,
                rest.len() == n - i,
                forall|k: int| 0 <= k < rest.len() ==> (#[trigger] rest@[k])@ == before[i + k],
                kept@.map_values(|x: Note| x@) == before.take(i as int).filter(|x: NoteV| x.id != id@),
            decreases n - i,
        {
            let note = rest.remove(0);
            proof {
                assert(note@ == before[i as int]);
                assert(before.take(i + 1).drop_last() =~= before.take(i as int));
                assert(before.take(i + 1).last() == before[i as int]);
                reveal(Seq::filter);
            }
            if !str_eq(note.id.as_str(), id) {
                let ghost kb = kept@.map_values(|x: Note| x@);
                kept.push(note);
                assert(kept@.map_values(|x: Note| x@) =~= kb.push(before[i as int]));
            }
            i = i + 1;
        }
        assert(before.take(n as int) =~= before);
        self.notes = kept;
    }

    /// Relocate each note to the nearest occurrence of its quote in `source`:
    /// unchanged text keeps the note in place, moved text carries it along, a
    /// vanished quote detaches it (kept, flagged). Returns whether anything
    /// changed, so the caller can persist only when needed.
    pub fn reanchor(&mut self, source: &str) -> (changed: bool)
        ensures
            final(self).root_value() == old(self).root_value(),
            final(self)@ == reanchored_all(old(self)@, source.spec_bytes()),
            changed == exists|i: int| 0 <= i < old(self)@.len() && reanchor_changes(old(self)@[i], source.spec_bytes()),
    {
        let ghost before = self@;
        let ghost src = source.spec_bytes();
        let src_len = source.as_bytes().len();
        let mut changed = false;
        let mut i: usize = 0;
        while i < self.notes.len()
            invariant
                self.root_value() == old(self).root_value(),
                src_len == src.len(),
                self.notes.len() == before.len(),
                i <= before.len(),
                src == source.spec_bytes(),
                forall|k: int| 0 <= k < i ==> self@[k] == reanchored(before[k], src),
                forall|k: int| i <= k < before.len() ==> self@[k] == before[k],
                changed == exists|k: int| 0 <= k < i && reanchor_changes(before[k], src),
            decreases before.len() - i,
        {
            let ghost prev = self@;
            let mut note = self.notes.remove(i);
            let ghost old_n = note@;
            assert(old_n == before[i as int]);
            let qn = note.quote.as_str().unicode_len();
            let mut this_changed = false;
            if qn == 0 {
                self.notes.insert(i, note);
                assert(self@ =~= prev);
            } else {
                let ghost q = encode_utf8(old_n.quote);
                match nearest(source, note.quote.as_str(), note.start) {
                    Some(pos) => {
                        if note.detached || note.start != pos {
                            this_changed = true;
                        }
                        let qb = note.quote.as_str().as_bytes().len();
                        assert(qb == q.len());
                        note.start = pos;
                        note.end = pos + qb;
                        note.detached = false;
                    },
                    None => {
                        if !note.detached {
                            this_changed = true;
                        }
                        note.detached = true;
                    },
                }
                let ghost nv = note@;
                assert(nv == reanchored(old_n, src));
                self.notes.insert(i, note);
                assert(self@ =~= prev.update(i as int, nv));
            }
            assert(this_changed == reanchor_changes(before[i as int], src));
            proof {
                if this_changed {
                    assert(0 <= i < i + 1 && reanchor_changes(before[i as int], src));
                } else if !changed {
                    assert forall|k: int| 0 <= k < i + 1 implies !reanchor_changes(before[k], src) by {
                        if k < i {
                        }
                    }
                }
            }
            changed = changed || this_changed;
            i = i + 1;
        }
        assert(self@ =~= before.map_values(|n: NoteV| reanchored(n, src)));
        changed
    }
}

/// The position `nearest_of` picks is one of the candidates, and there is
/// one whenever there are candidates.
proof fn lemma_nearest_is_candidate(ps: Seq<int>, o: int)
    ensures
        nearest_of(ps, o) matches Some(p) ==> ps.contains(p),
        ps.len() > 0 ==> nearest_of(ps, o) is Some,
    decreases ps.len(),
{
    if ps.len() > 0 {
        let init = ps.drop_last();
        lemma_nearest_is_candidate(init, o);
        assert(ps[ps.len() - 1] == ps.last());
        if let Some(b) = nearest_of(init, o) {
            let k = choose|k: int| 0 <= k < init.len() && init[k] == b;
            assert(ps[k] == b);
        }
    }
}

/// The position `nearest_of` picks is no farther from the origin than any
/// candidate, and it is the first candidate that near.
pub proof fn lemma_nearest_is_closest(ps: Seq<int>, o: int)
    ensures
        nearest_of(ps, o) matches Some(p) ==> exists|k: int|
            0 <= k < ps.len() && ps[k] == p && (forall|j: int|
                0 <= j < ps.len() ==> (if p >= o { p - o } else { o - p }) <= (if ps[j] >= o {
                    ps[j] - o
                } else {
                    o - ps[j]
                })) && (forall|j: int|
                0 <= j < k ==> (if p >= o { p - o } else { o - p }) < (if ps[j] >= o {
                    ps[j] - o
                } else {
                    o - ps[j]
                })),
    decreases ps.len(),
{
    if ps.len() > 0 {
        let init = ps.drop_last();
        lemma_nearest_is_closest(init, o);
        let l = ps.last();
        match nearest_of(init, o) {
            Some(b) => {
                let k = choose|k: int|
                    0 <= k < init.len() && init[k] == b && (forall|j: int|
                        0 <= j < init.len() ==> (if b >= o { b - o } else { o - b }) <= (if init[j] >= o {
                            init[j] - o
                        } else {
                            o - init[j]
                        })) && (forall|j: int|
                        0 <= j < k ==> (if b >= o { b - o } else { o - b }) < (if init[j] >= o {
                            init[j] - o
                        } else {
                            o - init[j]
                        }));
                if dist(l, o) < dist(b, o) {
                    assert(ps[ps.len() - 1] == l);
                    assert forall|j: int| 0 <= j < ps.len() implies (if l >= o { l - o } else { o - l }) <= (if ps[j]
                        >= o {
                        ps[j] - o
                    } else {
                        o - ps[j]
                    }) by {
                        if j < init.len() {
                            assert(ps[j] == init[j]);
                        }
                    }
                    assert forall|j: int| 0 <= j < ps.len() - 1 implies (if l >= o { l - o } else { o - l }) < (if ps[j]
                        >= o {
                        ps[j] - o
                    } else {
                        o - ps[j]
                    }) by {
                        assert(ps[j] == init[j]);
                    }
                } else {
                    assert(ps[k] == b);
                    assert forall|j: int| 0 <= j < ps.len() implies (if b >= o { b - o } else { o - b }) <= (if ps[j]
                        >= o {
                        ps[j] - o
                    } else {
                        o - ps[j]
                    }) by {
                        if j < init.len() {
                            assert(ps[j] == init[j]);
                        }
                    }
                    assert forall|j: int| 0 <= j < k implies (if b >= o { b - o } else { o - b }) < (if ps[j] >= o {
                        ps[j] - o
                    } else {
                        o - ps[j]
                    }) by {
                        assert(ps[j] == init[j]);
                    }
                }
            },
            None => {
                assert(init.len() == 0) by {
                    lemma_nearest_is_candidate(init, o);
                }
                assert(ps[0] == l);
            },
        }
    }
}

/// Re-anchoring moves a note to an occurrence of its quote nearest its old
/// place: no occurrence is closer, and the first of the nearest is taken.
pub proof fn lemma_reanchor_moves_to_nearest(n: NoteV, src: Seq<u8>)
    requires
        n.quote.len() > 0,
        !reanchored(n, src).detached,
    ensures
        ({
            let ps = occurrences(src, encode_utf8(n.quote), 0);
            let p = reanchored(n, src).start as int;
            let o = n.start as int;
            &&& ps.contains(p)
            &&& forall|j: int| 0 <= j < ps.len() ==> (if p >= o { p - o } else { o - p }) <= (if ps[j] >= o {
                ps[j] - o
            } else {
                o - ps[j]
            })
        }),
{
    let ps = occurrences(src, encode_utf8(n.quote), 0);
    lemma_nearest_is_closest(ps, n.start as int);
    lemma_nearest_is_candidate(ps, n.start as int);
    lemma_occurrences_from(src, encode_utf8(n.quote), 0);
    let p = nearest_of(ps, n.start as int)->0;
    let k = choose|k: int| 0 <= k < ps.len() && ps[k] == p;
    assert(ps[k] >= 0);
}

/// A candidate at the origin itself is the nearest one.
proof fn lemma_nearest_at_origin(ps: Seq<int>, o: int)
    requires
        ps.contains(o),
    ensures
        nearest_of(ps, o) == Some(o),
    decreases ps.len(),
{
    let init = ps.drop_last();
    lemma_nearest_is_candidate(init, o);
    if init.contains(o) {
        lemma_nearest_at_origin(init, o);
    } else {
        let k = choose|k: int| 0 <= k < ps.len() && ps[k] == o;
        if k < ps.len() - 1 {
            assert(init[k] == o);
        }
        assert(ps.last() == o);
    }
}

/// Occurrences found from `i` on start at `i` or later.
proof fn lemma_occurrences_from(hay: Seq<u8>, needle: Seq<u8>, i: int)
    ensures
        forall|k: int| 0 <= k < occurrences(hay, needle, i).len() ==> #[trigger] occurrences(hay, needle, i)[k] >= i,
    decreases hay.len() - i,
{
    if needle.len() == 0 || i < 0 || i + needle.len() > hay.len() {
    } else if hay.subrange(i, i + needle.len()) == needle {
        lemma_occurrences_from(hay, needle, i + needle.len());
        let rest = occurrences(hay, needle, i + needle.len());
        assert forall|k: int| 0 <= k < occurrences(hay, needle, i).len() implies #[trigger] occurrences(hay, needle, i)[k] >= i by {
            if k > 0 {
                assert(occurrences(hay, needle, i)[k] == rest[k - 1]);
            }
        }
    } else {
        lemma_occurrences_from(hay, needle, i + 1);
        let rest = occurrences(hay, needle, i + 1);
        assert forall|k: int| 0 <= k < occurrences(hay, needle, i).len() implies #[trigger] occurrences(hay, needle, i)[k] >= i by {
            assert(occurrences(hay, needle, i)[k] == rest[k]);
        }
    }
}

/// A note whose anchor still sits on an occurrence of its quote stays where
/// it is and is attached: unchanged text keeps a note in place.
pub proof fn lemma_reanchor_keeps_place(n: NoteV, src: Seq<u8>)
    requires
        n.quote.len() > 0,
        occurrences(src, encode_utf8(n.quote), 0).contains(n.start as int),
    ensures
        reanchored(n, src).start == n.start,
        !reanchored(n, src).detached,
        reanchored(n, src).quote == n.quote,
        reanchored(n, src).body == n.body,
{
    lemma_nearest_at_origin(occurrences(src, encode_utf8(n.quote), 0), n.start as int);
}

/// Re-anchoring to the same source a second time changes nothing, and
/// reports that nothing changed.
pub proof fn lemma_reanchor_idempotent(n: NoteV, src: Seq<u8>)
    ensures
        reanchored(reanchored(n, src), src) == reanchored(n, src),
        !reanchor_changes(reanchored(n, src), src),
{
    if n.quote.len() > 0 {
        let q = encode_utf8(n.quote);
        let occ = occurrences(src, q, 0);
        lemma_nearest_is_candidate(occ, n.start as int);
        if let Some(p) = nearest_of(occ, n.start as int) {
            lemma_occurrences_from(src, q, 0);
            let k = choose|k: int| 0 <= k < occ.len() && occ[k] == p;
            assert(occ[k] >= 0);
            lemma_nearest_at_origin(occ, p);
            assert(reanchored(n, src).start as int == p);
        }
    }
}

/// Looking a note up by id is unaffected by changing a note without
/// changing its id.
proof fn lemma_index_of_id_same_ids(ns: Seq<NoteV>, k: int, m: NoteV, id: Seq<char>)
    requires
        0 <= k < ns.len(),
        m.id == ns[k].id,
    ensures
        index_of_id(ns.update(k, m), id) == index_of_id(ns, id),
    decreases ns.len(),
{
    if k == 0 {
        assert(ns.update(k, m).drop_first() =~= ns.drop_first());
    } else {
        assert(ns.update(k, m).drop_first() =~= ns.drop_first().update(k - 1, m));
        lemma_index_of_id_same_ids(ns.drop_first(), k - 1, m, id);
    }
}

/// What `index_of_id` finds is a note with that id.
proof fn lemma_index_of_id_found(ns: Seq<NoteV>, id: Seq<char>)
    ensures
        index_of_id(ns, id) matches Some(i) ==> 0 <= i < ns.len() && ns[i].id == id,
    decreases ns.len(),
{
    if ns.len() > 0 && ns[0].id != id {
        lemma_index_of_id_found(ns.drop_first(), id);
    }
}

/// Toggling a note twice leaves the notes as they were.
pub proof fn lemma_toggle_twice(ns: Seq<NoteV>, id: Seq<char>)
    ensures
        toggled(toggled(ns, id), id) == ns,
{
    lemma_index_of_id_found(ns, id);
    if let Some(i) = index_of_id(ns, id) {
        let once = toggled(ns, id);
        lemma_index_of_id_same_ids(ns, i, NoteV { state: flipped(ns[i].state), ..ns[i] }, id);
        assert(index_of_id(once, id) == Some(i));
        assert(toggled(once, id) =~= ns);
    }
}

/// After removing `id`, no note has that id and every other note is kept.
pub proof fn lemma_remove_drops_only_id(ns: Seq<NoteV>, id: Seq<char>)
    ensures
        forall|k: int| 0 <= k < without_id(ns, id).len() ==> (#[trigger] without_id(ns, id)[k]).id != id,
        forall|k: int| 0 <= k < ns.len() && ns[k].id != id ==> without_id(ns, id).contains(#[trigger] ns[k]),
{
    broadcast use vstd::seq_lib::group_filter_ensures;
}

/// Re-anchoring never drops a note: every note stays, with its id, quote
/// and body, and one whose quote has vanished from the source is kept and
/// flagged detached.
pub proof fn lemma_reanchor_keeps_every_note(ns: Seq<NoteV>, src: Seq<u8>)
    ensures
        reanchored_all(ns, src).len() == ns.len(),
        forall|k: int|
            0 <= k < ns.len() ==> {
                let r = #[trigger] reanchored_all(ns, src)[k];
                &&& r.id == ns[k].id
                &&& r.quote == ns[k].quote
                &&& r.body == ns[k].body
                &&& r.state == ns[k].state
                &&& (ns[k].quote.len() > 0 && occurrences(src, encode_utf8(ns[k].quote), 0).len() == 0
                    ==> r.detached)
            },
{
    assert forall|k: int| 0 <= k < ns.len() implies {
        let r = #[trigger] reanchored_all(ns, src)[k];
        &&& r.id == ns[k].id
        &&& r.quote == ns[k].quote
        &&& r.body == ns[k].body
        &&& r.state == ns[k].state
        &&& (ns[k].quote.len() > 0 && occurrences(src, encode_utf8(ns[k].quote), 0).len() == 0 ==> r.detached)
    } by {
        let n = ns[k];
        if n.quote.len() > 0 {
            let occ = occurrences(src, encode_utf8(n.quote), 0);
            if occ.len() == 0 {
                assert(nearest_of(occ, n.start as int) is None);
            }
        }
    }
}

} // verus!
