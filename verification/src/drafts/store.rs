//! The snapshot manifest: a linear list of entries, each naming a
//! content-addressed zstd object. Marked drafts are kept forever; autos are
//! taken at most once per interval and pruned beyond both a count and an age
//! limit. The front-end reads and writes the manifest and the objects.

use vstd::prelude::*;
use std::path::PathBuf;
use crate::paths::{parent_of, path_empty, path_parent, path_is_empty, file_name_of, file_name, joined, join};
use vstd::utf8::{encode_utf8, decode_utf8, valid_utf8};
use vstd::string::StringSliceAdditionalSpecFns;
use crate::hash::{short_hash, short_hash_hex};
use crate::segment::{unicode_words, words_of};
use crate::text::{str_eq, hex_padded, append_chars, string_of, hex_of, zero_pad};

verus! {

/// At most one auto snapshot per this interval of active editing.
pub const AUTO_INTERVAL_MS: u64 = 10 * 60 * 1000;

/// Autos are pruned only beyond BOTH limits (kept if recent OR among the
/// last this many).
pub const AUTO_KEEP_COUNT: usize = 50;

/// The age limit of autos.
pub const AUTO_KEEP_MS: u64 = 7 * 24 * 3600 * 1000;

/// The zstd level objects are written at.
pub const OBJECT_LEVEL: i32 = 3;

#[derive(Debug, Clone, Copy, PartialEq, Eq, Structural)]
pub enum Kind {
    Marked,
    Auto,
}

#[derive(Debug, Clone)]
pub struct Entry {
    pub id: String,
    pub kind: Kind,
    pub name: Option<String>,
    pub created_ms: u64,
    pub object: String,
    pub words: usize,
}

/// An entry as values.
pub struct EntryV {
    pub id: Seq<char>,
    pub kind: Kind,
    pub name: Option<Seq<char>>,
    pub created_ms: u64,
    pub object: Seq<char>,
    pub words: nat,
}

pub open spec fn opt_view(o: Option<String>) -> Option<Seq<char>> {
    match o {
        Some(s) => Some(s@),
        None => None,
    }
}

impl View for Entry {
    type V = EntryV;

    open spec fn view(&self) -> EntryV {
        EntryV {
            id: self.id@,
            kind: self.kind,
            name: opt_view(self.name),
            created_ms: self.created_ms,
            object: self.object@,
            words: self.words as nat,
        }
    }
}

/// The object name of `text`: the first 8 bytes of its SHA-256, in hex.
pub open spec fn object_of(text: Seq<char>) -> Seq<char> {
    short_hash(encode_utf8(text), 8)
}

/// `d-<now as 13 hex digits>-<first 4 hex digits of the object>`.
pub open spec fn entry_id(now_ms: u64, object: Seq<char>) -> Seq<char> {
    seq!['d', '-'] + zero_pad(hex_of(now_ms as nat), 13) + seq!['-'] + object.take(4)
}

/// An auto snapshot of text whose object is the last entry's is skipped.
pub open spec fn skips(es: Seq<EntryV>, kind: Kind, object: Seq<char>) -> bool {
    kind == Kind::Auto && es.len() > 0 && es.last().object == object
}

/// The entry a snapshot of `text` adds.
pub open spec fn new_entry(text: Seq<char>, kind: Kind, name: Option<Seq<char>>, now_ms: u64) -> EntryV {
    EntryV {
        id: entry_id(now_ms, object_of(text)),
        kind,
        name,
        created_ms: now_ms,
        object: object_of(text),
        words: words_of(text).len(),
    }
}

/// `a - b`, or 0 when `b > a`.
pub open spec fn sat_sub(a: u64, b: u64) -> int {
    if a >= b {
        a - b
    } else {
        0
    }
}

pub open spec fn is_auto(e: EntryV) -> bool {
    e.kind == Kind::Auto
}

pub open spec fn is_marked(e: EntryV) -> bool {
    e.kind == Kind::Marked
}

/// The latest auto entry.
pub open spec fn last_auto(es: Seq<EntryV>) -> Option<EntryV>
    decreases es.len(),
{
    if es.len() == 0 {
        None
    } else if es.last().kind == Kind::Auto {
        Some(es.last())
    } else {
        last_auto(es.drop_last())
    }
}

/// The ids of the newest `AUTO_KEEP_COUNT` autos.
/// The auto entries, in order.
pub open spec fn autos(es: Seq<EntryV>) -> Seq<EntryV> {
    es.filter(|e: EntryV| is_auto(e))
}

pub open spec fn protected_ids(es: Seq<EntryV>) -> Seq<Seq<char>> {
    let a = autos(es);
    let from = if a.len() >= AUTO_KEEP_COUNT { a.len() - AUTO_KEEP_COUNT } else { 0 };
    a.skip(from).map_values(|e: EntryV| e.id)
}

/// An entry that pruning at `now_ms` keeps: marked, among the newest autos
/// (by id), or younger than the age limit.
pub open spec fn survives(e: EntryV, es: Seq<EntryV>, now_ms: u64) -> bool {
    e.kind == Kind::Marked || protected_ids(es).contains(e.id) || sat_sub(now_ms, e.created_ms)
        < AUTO_KEEP_MS
}

/// An auto snapshot is due at `now_ms`: there is no auto yet, or the latest
/// one is at least `AUTO_INTERVAL_MS` old.
pub open spec fn auto_due(es: Seq<EntryV>, now_ms: u64) -> bool {
    match last_auto(es) {
        Some(a) => sat_sub(now_ms, a.created_ms) >= AUTO_INTERVAL_MS,
        None => true,
    }
}

/// The manifest after pruning at `now_ms`: the surviving entries, in order.
pub open spec fn pruned(es: Seq<EntryV>, now_ms: u64) -> Seq<EntryV> {
    es.filter(|e: EntryV| survives(e, es, now_ms))
}

/// `s` with every trailing `suffix` removed (what `trim_end_matches` does).
pub open spec fn trim_suffixes(s: Seq<char>, suffix: Seq<char>) -> Seq<char>
    decreases s.len(),
{
    if suffix.len() == 0 || s.len() < suffix.len() {
        s
    } else if s.skip(s.len() - suffix.len()) == suffix {
        trim_suffixes(s.take(s.len() - suffix.len()), suffix)
    } else {
        s
    }
}

/// The zstd frame `zstd::encode_all` makes of `data` at `level`.
pub uninterp spec fn zstd_frame(data: Seq<u8>, level: i32) -> Seq<u8>;

/// What `zstd::decode_all` gives back of `frame`, when it succeeds.
pub uninterp spec fn zstd_content(frame: Seq<u8>) -> Option<Seq<u8>>;

/// `zstd::encode_all` over in-memory bytes: it reads the slice into an
/// encoder writing to a `Vec` (the level is clamped to zstd's range), so it
/// succeeds, with the frame for `data` at `level`.
#[verifier::external_body]
fn zstd_encode(data: &[u8], level: i32) -> (r: Option<Vec<u8>>)
    ensures
        r is Some,
        r matches Some(v) ==> v@ == zstd_frame(data@, level),
{
    zstd::encode_all(data, level).ok()
}

/// `zstd::decode_all` over in-memory bytes: the frame's content when it
/// decodes, and (zstd being lossless) exactly the data a frame was made of.
#[verifier::external_body]
fn zstd_decode(frame: &[u8]) -> (r: Option<Vec<u8>>)
    ensures
        r is Some <==> zstd_content(frame@) is Some,
        r is Some ==> r->0@ == zstd_content(frame@)->0,
        forall|d: Seq<u8>, l: i32| frame@ == zstd_frame(d, l) ==> r is Some && r->0@ == d,
{
    zstd::decode_all(frame).ok()
}

/// `String::from_utf8`: the text the bytes encode, when they are UTF-8.
#[verifier::external_body]
fn utf8_text(bytes: Vec<u8>) -> (r: Option<String>)
    ensures
        r is Some <==> valid_utf8(bytes@),
        r matches Some(s) ==> s@ == decode_utf8(bytes@),
{
    String::from_utf8(bytes).ok()
}

/// Why an object could not be read back.
#[derive(Debug, Clone, Copy, PartialEq, Eq, Structural)]
pub enum ObjectError {
    /// Not a zstd frame.
    Corrupt,
    /// Decompressed, but not UTF-8 text.
    NotText,
}

/// The text an object file holds, read back.
pub open spec fn object_text(frame: Seq<u8>) -> Result<Seq<char>, ObjectError> {
    match zstd_content(frame) {
        None => Err(ObjectError::Corrupt),
        Some(d) => if valid_utf8(d) {
            Ok(decode_utf8(d))
        } else {
            Err(ObjectError::NotText)
        },
    }
}

/// The bytes of the object file for `text`: zstd at `OBJECT_LEVEL`.
pub fn encode_object(text: &str) -> (r: Option<Vec<u8>>)
    ensures
        r is Some,
        r matches Some(v) ==> v@ == zstd_frame(text.spec_bytes(), OBJECT_LEVEL),
{
    zstd_encode(text.as_bytes(), OBJECT_LEVEL)
}

/// Read an object file's bytes back into text. What `encode_object` wrote
/// of a text reads back as exactly that text.
pub fn decode_object(frame: &[u8]) -> (r: Result<String, ObjectError>)
    ensures
        match object_text(frame@) {
            Ok(t) => r matches Ok(s) && s@ == t,
            Err(e) => r == Err::<String, ObjectError>(e),
        },
        forall|t: Seq<char>, l: i32| frame@ == zstd_frame(encode_utf8(t), l) ==> (r matches Ok(s) && s@ == t),
{
    match zstd_decode(frame) {
        None => Err(ObjectError::Corrupt),
        Some(raw) => {
            let ghost d = raw@;
            proof {
                assert forall|t: Seq<char>, l: i32| frame@ == zstd_frame(encode_utf8(t), l) implies valid_utf8(d)
                    && decode_utf8(d) == t by {
                    vstd::utf8::encode_utf8_valid_utf8(t);
                    vstd::utf8::encode_utf8_decode_utf8(t);
                }
            }
            match utf8_text(raw) {
                Some(s) => Ok(s),
                None => Err(ObjectError::NotText),
            }
        },
    }
}

/// A copy of `e`, field by field.
fn copy_entry(e: &Entry) -> (r: Entry)
    ensures
        r@ == e@,
{
    let name = match &e.name {
        Some(s) => Some(s.clone()),
        None => None,
    };
    Entry {
        id: e.id.clone(),
        kind: e.kind,
        name,
        created_ms: e.created_ms,
        object: e.object.clone(),
        words: e.words,
    }
}

/// The first `n` chars of `v`.
fn prefix_chars(v: &Vec<char>, n: usize) -> (r: Vec<char>)
    requires
        n <= v@.len(),
    ensures
        r@ == v@.take(n as int),
{
    let mut out: Vec<char> = Vec::new();
    let mut i: usize = 0;
    while i < n
        invariant
            i <= n <= v@.len(),
            out@ == v@.take(i as int),
        decreases n - i,
    {
        out.push(v[i]);
        assert(v@.take(i + 1) =~= v@.take(i as int).push(v@[i as int]));
        i = i + 1;
    }
    out
}

/// `text` with every trailing `.zst` removed: the object a file name holds.
pub fn object_of_file(file_name: &str) -> (r: String)
    ensures
        r@ == trim_suffixes(file_name@, seq!['.', 'z', 's', 't']),
{
    let ghost suffix = seq!['.', 'z', 's', 't'];
    let chars = crate::text::chars_of(file_name);
    let mut n: usize = chars.len();
    assert(chars@.take(n as int) =~= chars@);
    while n >= 4 && chars[n - 4] == '.' && chars[n - 3] == 'z' && chars[n - 2] == 's' && chars[n
        - 1] == 't'
        invariant
            suffix == seq!['.', 'z', 's', 't'],
            n <= chars@.len(),
            chars@ == file_name@,
            trim_suffixes(chars@.take(n as int), suffix) == trim_suffixes(file_name@, suffix),
        decreases n,
    {
        let ghost s = chars@.take(n as int);
        assert(suffix[0] == '.' && suffix[1] == 'z' && suffix[2] == 's' && suffix[3] == 't');
        assert forall|k: int| 0 <= k < 4 implies s.skip(s.len() - 4)[k] == suffix[k] by {
            assert(s.skip(s.len() - 4)[k] == chars@[n - 4 + k]);
        }
        assert(s.skip(s.len() - 4) =~= suffix);
        assert(s.take(s.len() - 4) =~= chars@.take(n - 4));
        n = n - 4;
    }
    proof {
        let s = chars@.take(n as int);
        assert(chars@.take(chars@.len() as int) =~= chars@);
        if s.len() >= 4 {
            assert(s.skip(s.len() - 4) != suffix) by {
                if s.skip(s.len() - 4) == suffix {
                    assert(s.skip(s.len() - 4)[0] == chars@[n - 4]);
                    assert(s.skip(s.len() - 4)[1] == chars@[n - 3]);
                    assert(s.skip(s.len() - 4)[2] == chars@[n - 2]);
                    assert(s.skip(s.len() - 4)[3] == chars@[n - 1]);
                }
            }
        }
    }
    let kept = prefix_chars(&chars, n);
    string_of(kept.as_slice())
}

/// Why a document has no sidecar.
#[derive(Debug, Clone, Copy, PartialEq, Eq, Structural)]
pub enum SidecarError {
    /// The path has no directory part.
    NoDirectory,
    /// The path has no final component, or it is not UTF-8.
    NoName,
}

/// `<doc dir>/.polaris/<file-name>` for an absolute document path.
pub open spec fn sidecar_spec(doc: PathBuf) -> Result<PathBuf, SidecarError> {
    match parent_of(doc) {
        Some(dir) if !path_empty(dir) => match file_name_of(doc) {
            Some(name) => Ok(joined(joined(dir, ".polaris"@), name)),
            None => Err(SidecarError::NoName),
        },
        _ => Err(SidecarError::NoDirectory),
    }
}

/// Where a document's drafts and notes live: `.polaris/<file-name>` beside
/// it. `doc` is absolute (the caller anchors a bare relative name to the
/// working directory first).
pub fn sidecar_root(doc: &PathBuf) -> (r: Result<PathBuf, SidecarError>)
    ensures
        r == sidecar_spec(*doc),
{
    let dir = match path_parent(doc) {
        Some(d) => {
            if path_is_empty(&d) {
                return Err(SidecarError::NoDirectory);
            }
            d
        },
        None => {
            return Err(SidecarError::NoDirectory);
        },
    };
    match file_name(doc) {
        Some(name) => {
            let side = join(&dir, ".polaris");
            Ok(join(&side, name.as_str()))
        },
        None => Err(SidecarError::NoName),
    }
}

pub struct DraftStore {
    /// `<doc dir>/.polaris/<file-name>`
    root: PathBuf,
    entries: Vec<Entry>,
}

impl View for DraftStore {
    type V = Seq<EntryV>;

    closed spec fn view(&self) -> Seq<EntryV> {
        self.entries@.map_values(|e: Entry| e@)
    }
}

impl DraftStore {
    /// A store for the manifest entries already read from the sidecar at
    /// `root`.
    pub fn new(root: PathBuf, entries: Vec<Entry>) -> (s: Self)
        ensures
            s@ == entries@.map_values(|e: Entry| e@),
            s.root_value() == root,
    {
        DraftStore { root, entries }
    }

    /// The sidecar directory.
    pub closed spec fn root_value(&self) -> PathBuf {
        self.root
    }

    pub fn root(&self) -> (r: &PathBuf)
        ensures
            *r == self.root_value(),
    {
        &self.root
    }

    pub fn entries(&self) -> (r: &[Entry])
        ensures
            r@.map_values(|e: Entry| e@) == self@,
    {
        self.entries.as_slice()
    }

    pub fn last(&self) -> (r: Option<&Entry>)
        ensures
            self@.len() == 0 ==> r is None,
            self@.len() > 0 ==> (r matches Some(e) && e@ == self@.last()),
    {
        if self.entries.len() == 0 {
            None
        } else {
            Some(&self.entries[self.entries.len() - 1])
        }
    }

    pub fn marked_count(&self) -> (n: usize)
        ensures
            n == self@.filter(|e: EntryV| is_marked(e)).len(),
    {
        let ghost es = self@;
        let mut n: usize = 0;
        let mut i: usize = 0;
        assert(es.take(0) =~= Seq::<EntryV>::empty());
        reveal(Seq::filter);
        while i < self.entries.len()
            invariant
                es == self@,
                i <= es.len(),
                n == es.take(i as int).filter(|e: EntryV| is_marked(e)).len(),
                n <= i,
            decreases es.len() - i,
        {
            proof {
                assert(es.take(i + 1).drop_last() =~= es.take(i as int));
                assert(es.take(i + 1).last() == es[i as int]);
                reveal(Seq::filter);
            }
            if self.entries[i].kind == Kind::Marked {
                n = n + 1;
            }
            i = i + 1;
        }
        assert(es.take(es.len() as int) =~= es);
        n
    }

    /// Record a snapshot of `text`. An auto snapshot whose text is the last
    /// entry's (same object) is skipped (`None`); a marked draft always adds
    /// an entry. Writing the object (when it is new) and the manifest is the
    /// caller's part.
    pub fn snapshot(&mut self, text: &str, kind: Kind, name: Option<String>, now_ms: u64) -> (r: Option<Entry>)
        ensures
            final(self).root_value() == old(self).root_value(),
            skips(old(self)@, kind, object_of(text@)) ==> r is None && final(self)@ == old(self)@,
            !skips(old(self)@, kind, object_of(text@)) ==> (r matches Some(e) && e@ == new_entry(text@, kind, opt_view(name), now_ms)
                && final(self)@ == old(self)@.push(e@)),
    {
        let digest = short_hash_hex(text.as_bytes(), 8);
        let object = string_of(digest.as_slice());
        if kind == Kind::Auto && self.entries.len() > 0 {
            let last = &self.entries[self.entries.len() - 1];
            if str_eq(last.object.as_str(), object.as_str()) {
                return None;
            }
        }
        let mut id = vec!['d', '-'];
        let stamp = hex_padded(now_ms, 13);
        append_chars(&mut id, &stamp);
        id.push('-');
        let head = prefix_chars(&digest, 4);
        append_chars(&mut id, &head);
        let all_words = unicode_words(text);
        let words = all_words.len();
        let entry = Entry {
            id: string_of(id.as_slice()),
            kind,
            name,
            created_ms: now_ms,
            object,
            words,
        };
        proof {
            let obj = object_of(text@);
            assert(object@ == obj);
            assert(id@ =~= entry_id(now_ms, obj));
            assert(entry@.words == words_of(text@).len());
            assert(entry@.name == opt_view(name));
            assert(entry@ == new_entry(text@, kind, opt_view(name), now_ms));
        }
        let out = copy_entry(&entry);
        let ghost before = self@;
        self.entries.push(entry);
        assert(self@ =~= before.push(out@));
        Some(out)
    }

    /// One auto per `AUTO_INTERVAL_MS` of active editing: due when there is
    /// no auto yet, or the latest one is at least that old.
    pub fn should_auto_snapshot(&self, now_ms: u64) -> (b: bool)
        ensures
            b == auto_due(self@, now_ms),
    {
        let ghost es = self@;
        let mut i: usize = self.entries.len();
        assert(es.take(i as int) =~= es);
        while i > 0
            invariant
                es == self@,
                i <= es.len(),
                last_auto(es) == last_auto(es.take(i as int)),
            decreases i,
        {
            let e = &self.entries[i - 1];
            assert(es.take(i as int).drop_last() =~= es.take(i - 1));
            assert(es.take(i as int).last() == es[i - 1]);
            if e.kind == Kind::Auto {
                return now_ms.saturating_sub(e.created_ms) >= AUTO_INTERVAL_MS;
            }
            i = i - 1;
        }
        true
    }

    /// The manifest names `object`.
    pub fn references(&self, object: &str) -> (b: bool)
        ensures
            b == exists|k: int| 0 <= k < self@.len() && self@[k].object == object@,
    {
        let mut i: usize = 0;
        while i < self.entries.len()
            invariant
                i <= self@.len(),
                forall|k: int| 0 <= k < i ==> self@[k].object != object@,
            decreases self@.len() - i,
        {
            if str_eq(self.entries[i].object.as_str(), object) {
                assert(self@[i as int].object == object@);
                return true;
            }
            i = i + 1;
        }
        false
    }

    /// Prune autos beyond BOTH limits (older than `AUTO_KEEP_MS` AND not
    /// among the newest `AUTO_KEEP_COUNT` autos). Marked drafts are never
    /// pruned. Returns how many entries were removed; deleting the objects
    /// nothing references any more is the caller's part.
    pub fn prune(&mut self, now_ms: u64) -> (removed: usize)
        ensures
            final(self).root_value() == old(self).root_value(),
            final(self)@ == pruned(old(self)@, now_ms),
            removed == old(self)@.len() - final(self)@.len(),
    {
        let ghost before = self@;
        let ids = self.auto_ids();
        let from = ids.len().saturating_sub(AUTO_KEEP_COUNT);
        let ghost pids = protected_ids(before);
        assert(ids@.map_values(|s: String| s@).len() == ids@.len());
        assert(ids@.len() == autos(before).len());
        assert(pids =~= ids@.skip(from as int).map_values(|s: String| s@)) by {
            let iv = ids@.map_values(|s: String| s@);
            assert(iv.skip(from as int) =~= ids@.skip(from as int).map_values(|s: String| s@));
        }
        let mut kept: Vec<Entry> = Vec::new();
        let mut rest: Vec<Entry> = Vec::new();
        std::mem::swap(&mut rest, &mut self.entries);
        let n = rest.len();
        let mut i: usize = 0;
        assert(before.take(0) =~= Seq::<EntryV>::empty());
        while i < n
            invariant
                n == before.len(),
                i <= n,
                from <= ids@.len(),
                pids == ids@.skip(from as int).map_values(|s: String| s@),
                pids == protected_ids(before),
                rest.len() == n - i,
                forall|k: int| 0 <= k < rest.len() ==> (#[trigger] rest@[k])@ == before[i + k],
                kept@.map_values(|x: Entry| x@) == before.take(i as int).filter(
                    |x: EntryV| survives(x, before, now_ms),
                ),
                kept@.len() <= i,
            decreases n - i,
        {
            let e = rest.remove(0);
            proof {
                assert(e@ == before[i as int]);
                assert(before.take(i + 1).drop_last() =~= before.take(i as int));
                assert(before.take(i + 1).last() == before[i as int]);
                reveal(Seq::filter);
            }
            let young = now_ms.saturating_sub(e.created_ms) < AUTO_KEEP_MS;
            let keep = e.kind == Kind::Marked || young || contains_from(&ids, from, e.id.as_str());
            if keep {
                let ghost kb = kept@.map_values(|x: Entry| x@);
                kept.push(e);
                assert(kept@.map_values(|x: Entry| x@) =~= kb.push(before[i as int]));
            }
            i = i + 1;
        }
        assert(before.take(n as int) =~= before);
        let left = kept.len();
        self.entries = kept;
        n - left
    }

    /// The ids of the auto entries, in order.
    fn auto_ids(&self) -> (ids: Vec<String>)
        ensures
            ids@.map_values(|s: String| s@) == autos(self@).map_values(|e: EntryV| e.id),
    {
        let ghost es = self@;
        let mut ids: Vec<String> = Vec::new();
        let mut i: usize = 0;
        assert(es.take(0) =~= Seq::<EntryV>::empty());
        reveal(Seq::filter);
        while i < self.entries.len()
            invariant
                es == self@,
                i <= es.len(),
                ids@.map_values(|s: String| s@) == es.take(i as int).filter(|e: EntryV| is_auto(e)).map_values(
                    |e: EntryV| e.id,
                ),
            decreases es.len() - i,
        {
            proof {
                assert(es.take(i + 1).drop_last() =~= es.take(i as int));
                assert(es.take(i + 1).last() == es[i as int]);
                reveal(Seq::filter);
            }
            if self.entries[i].kind == Kind::Auto {
                let ghost before_ids = ids@.map_values(|s: String| s@);
                ids.push(self.entries[i].id.clone());
                assert(ids@.map_values(|s: String| s@) =~= before_ids.push(es[i as int].id));
                assert(es.take(i + 1).filter(|e: EntryV| is_auto(e)) == es.take(i as int).filter(
                    |e: EntryV| is_auto(e),
                ).push(es[i as int]));
                assert(es.take(i + 1).filter(|e: EntryV| is_auto(e)).map_values(|e: EntryV| e.id)
                    =~= es.take(i as int).filter(|e: EntryV| is_auto(e)).map_values(|e: EntryV| e.id).push(
                    es[i as int].id,
                ));
            }
            i = i + 1;
        }
        assert(es.take(es.len() as int) =~= es);
        ids
    }
}

/// `id` is among `ids[from..]`.
fn contains_from(ids: &Vec<String>, from: usize, id: &str) -> (b: bool)
    requires
        from <= ids@.len(),
    ensures
        b == ids@.skip(from as int).map_values(|s: String| s@).contains(id@),
{
    let ghost v = ids@.skip(from as int).map_values(|s: String| s@);
    let mut j: usize = from;
    while j < ids.len()
        invariant
            from <= j <= ids@.len(),
            v == ids@.skip(from as int).map_values(|s: String| s@),
            forall|k: int| 0 <= k < j - from ==> v[k] != id@,
        decreases ids.len() - j,
    {
        if str_eq(ids[j].as_str(), id) {
            assert(v[j - from] == id@);
            return true;
        }
        j = j + 1;
    }
    false
}

/// Right after an auto snapshot taken at `now_ms`, no other is due until the
/// interval has passed.
pub proof fn lemma_auto_snapshot_defers_next(
    es: Seq<EntryV>,
    text: Seq<char>,
    name: Option<Seq<char>>,
    now_ms: u64,
    later_ms: u64,
)
    requires
        later_ms < now_ms + AUTO_INTERVAL_MS,
    ensures
        !auto_due(es.push(new_entry(text, Kind::Auto, name, now_ms)), later_ms),
{
    let es2 = es.push(new_entry(text, Kind::Auto, name, now_ms));
    assert(es2.last() == new_entry(text, Kind::Auto, name, now_ms));
}

/// With no auto in the manifest, an auto snapshot is due.
pub proof fn lemma_first_auto_due(es: Seq<EntryV>, now_ms: u64)
    requires
        forall|k: int| 0 <= k < es.len() ==> es[k].kind == Kind::Marked,
    ensures
        auto_due(es, now_ms),
    decreases es.len(),
{
    if es.len() > 0 {
        assert(es.last() == es[es.len() - 1]);
        lemma_first_auto_due(es.drop_last(), now_ms);
    }
}

/// Once a text has been snapshotted, an auto snapshot of the same text adds
/// nothing.
pub proof fn lemma_same_text_auto_skipped(
    es: Seq<EntryV>,
    text: Seq<char>,
    kind: Kind,
    name: Option<Seq<char>>,
    now_ms: u64,
)
    ensures
        skips(es.push(new_entry(text, kind, name, now_ms)), Kind::Auto, object_of(text)),
{
    assert(es.push(new_entry(text, kind, name, now_ms)).last() == new_entry(text, kind, name, now_ms));
}

/// Filtering by `p` and then by a `q` that implies `p` is filtering by `q`.
proof fn lemma_filter_weaker_first(s: Seq<EntryV>, p: spec_fn(EntryV) -> bool, q: spec_fn(EntryV) -> bool)
    requires
        forall|e: EntryV| #[trigger] q(e) ==> p(e),
    ensures
        s.filter(p).filter(q) == s.filter(q),
    decreases s.len(),
{
    reveal(Seq::filter);
    if s.len() > 0 {
        lemma_filter_weaker_first(s.drop_last(), p, q);
        if p(s.last()) {
            assert(s.filter(p).drop_last() =~= s.drop_last().filter(p));
        }
    }
}

/// Pruning never drops a marked draft, an entry younger than the age limit,
/// or one of the newest `AUTO_KEEP_COUNT` autos; whatever it keeps survives;
/// and the marked drafts come through all of them, in order.
pub proof fn lemma_prune_keeps(es: Seq<EntryV>, now_ms: u64)
    ensures
        forall|k: int|
            0 <= k < es.len() && (is_marked(es[k]) || sat_sub(now_ms, es[k].created_ms) < AUTO_KEEP_MS)
                ==> pruned(es, now_ms).contains(#[trigger] es[k]),
        forall|j: int|
            0 <= j < autos(es).len() && autos(es).len() <= j + AUTO_KEEP_COUNT
                ==> pruned(es, now_ms).contains(#[trigger] autos(es)[j]),
        forall|k: int| 0 <= k < pruned(es, now_ms).len() ==> survives(#[trigger] pruned(es, now_ms)[k], es, now_ms),
        pruned(es, now_ms).filter(|e: EntryV| is_marked(e)) == es.filter(|e: EntryV| is_marked(e)),
{
    broadcast use vstd::seq_lib::group_filter_ensures;

    let keep = |e: EntryV| survives(e, es, now_ms);
    assert forall|j: int|
        0 <= j < autos(es).len() && autos(es).len() <= j + AUTO_KEEP_COUNT
            implies pruned(es, now_ms).contains(#[trigger] autos(es)[j]) by {
        let a = autos(es);
        let from = if a.len() >= AUTO_KEEP_COUNT { a.len() - AUTO_KEEP_COUNT } else { 0 };
        let pids = protected_ids(es);
        assert(pids[j - from] == a[j].id);
        assert(pids.contains(a[j].id));
        assert(a.contains(a[j]));
        es.lemma_filter_contains_rev(|e: EntryV| is_auto(e), a[j]);
        let k = choose|k: int| 0 <= k < es.len() && es[k] == a[j];
        assert(keep(es[k]));
    }
    lemma_filter_weaker_first(es, keep, |e: EntryV| is_marked(e));
}

/// Filtering commutes.
proof fn lemma_filter_commute(s: Seq<EntryV>, p: spec_fn(EntryV) -> bool, q: spec_fn(EntryV) -> bool)
    ensures
        s.filter(p).filter(q) == s.filter(q).filter(p),
    decreases s.len(),
{
    reveal(Seq::filter);
    if s.len() > 0 {
        lemma_filter_commute(s.drop_last(), p, q);
        let x = s.last();
        if p(x) {
            assert(s.filter(p).drop_last() =~= s.drop_last().filter(p));
        }
        if q(x) {
            assert(s.filter(q).drop_last() =~= s.drop_last().filter(q));
        }
        if p(x) && q(x) {
            assert(s.filter(p).filter(q).drop_last() =~= s.drop_last().filter(p).filter(q));
            assert(s.filter(q).filter(p).drop_last() =~= s.drop_last().filter(q).filter(p));
        }
    }
}

/// Filtering keeps a sequence whose items all pass.
proof fn lemma_filter_all(s: Seq<EntryV>, p: spec_fn(EntryV) -> bool)
    requires
        forall|i: int| 0 <= i < s.len() ==> #[trigger] p(s[i]),
    ensures
        s.filter(p) == s,
    decreases s.len(),
{
    reveal(Seq::filter);
    if s.len() > 0 {
        lemma_filter_all(s.drop_last(), p);
        assert(p(s[s.len() - 1]));
        assert(s.drop_last().push(s.last()) =~= s);
    }
}

/// Pruning keeps the newest `AUTO_KEEP_COUNT` autos, so the ids it
/// protects are the same before and after.
proof fn lemma_prune_keeps_protected(es: Seq<EntryV>, now_ms: u64)
    ensures
        protected_ids(pruned(es, now_ms)) == protected_ids(es),
{
    broadcast use vstd::seq_lib::group_filter_ensures;

    let keep = |e: EntryV| survives(e, es, now_ms);
    let auto = |e: EntryV| is_auto(e);
    let a = autos(es);
    let n = AUTO_KEEP_COUNT as int;
    let from = if a.len() >= n { a.len() - n } else { 0 };
    let head = a.take(from);
    let tail = a.skip(from);
    assert forall|i: int| 0 <= i < tail.len() implies #[trigger] keep(tail[i]) by {
        assert(protected_ids(es)[i] == tail[i].id);
        assert(protected_ids(es).contains(tail[i].id));
    }
    lemma_filter_all(tail, keep);
    assert(a =~= head + tail);
    Seq::filter_distributes_over_add(head, tail, keep);
    lemma_filter_commute(es, keep, auto);
    let ap = autos(pruned(es, now_ms));
    assert(ap == head.filter(keep) + tail);
    let m = head.filter(keep).len();
    if a.len() >= n {
        assert(ap.skip(m as int) =~= tail);
        assert(ap.len() - n == m);
    } else {
        assert(head =~= Seq::<EntryV>::empty());
        assert(head.filter(keep) =~= Seq::<EntryV>::empty()) by {
            reveal(Seq::filter);
        }
        assert(ap =~= tail);
        assert(tail =~= a);
    }
}

/// Pruning twice at the same time is pruning once: nothing more goes.
pub proof fn lemma_prune_idempotent(es: Seq<EntryV>, now_ms: u64)
    ensures
        pruned(pruned(es, now_ms), now_ms) == pruned(es, now_ms),
{
    broadcast use vstd::seq_lib::group_filter_ensures;

    let p = pruned(es, now_ms);
    lemma_prune_keeps_protected(es, now_ms);
    assert forall|i: int| 0 <= i < p.len() implies #[trigger] survives(p[i], p, now_ms) by {
        assert(survives(p[i], es, now_ms));
    }
    lemma_filter_all(p, |e: EntryV| survives(e, p, now_ms));
}

} // verus!
