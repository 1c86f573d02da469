//! Typing with smart punctuation: a single character typed outside code
//! gets its substitution, and one Backspace right after it restores the
//! literal keystrokes.

use vstd::prelude::*;
use crate::document::{Document, DocV, doc_wf, insert_str_spec, replace_range_spec, backspace_spec};
use crate::cursor::selection_of;
use crate::typography::{substitute_in_context, substitute_spec, code_context};
use crate::text::{chars_of, string_of, slice_chars};

verus! {

/// One Backspace right after a smart-punctuation substitution restores the
/// literal keystrokes.
#[derive(Debug, Clone)]
pub struct Revert {
    /// Chars the substitution inserted (to delete).
    pub inserted: usize,
    /// The literal text the writer actually typed (to restore).
    pub literal: String,
}

pub open spec fn revert_view(r: Option<Revert>) -> Option<(nat, Seq<char>)> {
    match r {
        Some(v) => Some((v.inserted as nat, v.literal@)),
        None => None,
    }
}

/// Typing `s`: a single character typed with no selection, outside code,
/// gets its smart-punctuation substitution (and a revert is armed: how many
/// chars went in, and the literal keystrokes); anything else goes in as is.
pub open spec fn typed_spec(d: DocV, s: Seq<char>) -> (DocV, Option<(nat, Seq<char>)>) {
    let pos = d.cursor.pos as int;
    let before = d.text.take(pos);
    if s.len() == 1 && selection_of(d.cursor) is None && !code_context(before) && substitute_spec(
        before,
        s[0],
    ) is Some {
        let (k, ins) = substitute_spec(before, s[0])->0;
        (replace_range_spec(d, (pos - k) as nat, pos as nat, ins), Some((ins.len(), before.skip(pos - k).push(s[0]))))
    } else {
        (insert_str_spec(d, s), None)
    }
}

/// Backspace: with a revert armed, the inserted chars before the caret give
/// way to the literal keystrokes; otherwise a plain backspace.
pub open spec fn backspace_revert_spec(d: DocV, pending: Option<(nat, Seq<char>)>) -> DocV {
    match pending {
        Some((n, literal)) => {
            let pos = d.cursor.pos as int;
            replace_range_spec(d, (if pos >= n { pos - n } else { 0 }) as nat, pos as nat, literal)
        },
        None => backspace_spec(d),
    }
}

/// What a substitution deletes lies before the cursor, and it inserts one
/// char.
proof fn lemma_substitution_shape(before: Seq<char>, c: char)
    ensures
        substitute_spec(before, c) matches Some((k, ins)) ==> k <= before.len() && ins.len() == 1,
{
}

/// Insert typed text, applying smart punctuation to a single plain char
/// (at input time, so the file carries the real characters); never inside
/// code spans or fences. Returns the revert the next Backspace may use.
pub fn insert_with_typography(doc: &mut Document, s: &str) -> (r: Option<Revert>)
    requires
        old(doc).wf(),
    ensures
        final(doc).wf(),
        (final(doc)@, revert_view(r)) == typed_spec(old(doc)@, s@),
        final(doc).path_value() == old(doc).path_value(),
{
    let cs = chars_of(s);
    if cs.len() != 1 {
        doc.insert_str(s);
        return None;
    }
    let c = cs[0];
    assert(s@ =~= seq![c]);
    if doc.selection().is_none() {
        let pos = doc.cursor().pos;
        let before = doc.buffer().slice(0..pos);
        assert(before@ =~= doc@.text.take(pos as int));
        if let Some(sub) = substitute_in_context(before.as_str(), c) {
            proof {
                lemma_substitution_shape(before@, c);
            }
            let bc = chars_of(before.as_str());
            let k = sub.delete_before;
            let mut lit = slice_chars(&bc, pos - k, pos);
            lit.push(c);
            let literal = string_of(lit.as_slice());
            assert(literal@ =~= before@.skip(pos - k).push(c));
            doc.replace_range(pos - k..pos, sub.insert);
            let inserted = chars_of(sub.insert).len();
            return Some(Revert { inserted, literal });
        }
    }
    doc.insert_char(c);
    None
}

/// Backspace, restoring the literal keystrokes when a substitution was the
/// last thing typed.
pub fn backspace_with_revert(doc: &mut Document, pending: Option<Revert>)
    requires
        old(doc).wf(),
    ensures
        final(doc).wf(),
        final(doc)@ == backspace_revert_spec(old(doc)@, revert_view(pending)),
        final(doc).path_value() == old(doc).path_value(),
{
    match pending {
        Some(revert) => {
            let pos = doc.cursor().pos;
            let from = pos.saturating_sub(revert.inserted);
            doc.replace_range(from..pos, revert.literal.as_str());
        },
        None => doc.backspace(),
    }
}

/// One Backspace right after a smart-punctuation substitution restores what
/// was typed: the text is as if the character had gone in literally, with
/// the caret right after it.
pub proof fn lemma_backspace_restores_literal(d: DocV, c: char)
    requires
        doc_wf(d),
        d.text.len() < usize::MAX,
        typed_spec(d, seq![c]).1 is Some,
    ensures
        ({
            let (d1, pending) = typed_spec(d, seq![c]);
            let d2 = backspace_revert_spec(d1, pending);
            &&& d2.text == insert_str_spec(d, seq![c]).text
            &&& d2.text == d.text.take(d.cursor.pos as int) + seq![c] + d.text.skip(d.cursor.pos as int)
            &&& d2.cursor.pos == d.cursor.pos + 1
        }),
{
    let t = d.text;
    let pos = d.cursor.pos as int;
    let before = t.take(pos);
    lemma_substitution_shape(before, c);
    let (k, ins) = substitute_spec(before, c)->0;
    let s0 = pos - k;
    let d1 = typed_spec(d, seq![c]).0;
    let rest = t.take(s0) + t.skip(pos);
    assert(rest.take(s0) =~= t.take(s0));
    assert(rest.skip(s0) =~= t.skip(pos));
    assert(d1.text =~= t.take(s0) + ins + t.skip(pos));
    assert(d1.cursor.pos == s0 + 1);
    let lit = before.skip(s0).push(c);
    let t1 = d1.text;
    let mid = t1.take(s0) + t1.skip(s0 + 1);
    assert(t1.take(s0) =~= t.take(s0));
    assert(t1.skip(s0 + 1) =~= t.skip(pos));
    assert(mid.take(s0) =~= t.take(s0));
    assert(mid.skip(s0) =~= t.skip(pos));
    let d2 = backspace_revert_spec(d1, typed_spec(d, seq![c]).1);
    assert(d2.text =~= t.take(s0) + lit + t.skip(pos));
    assert(t.take(s0) + lit + t.skip(pos) =~= t.take(pos) + seq![c] + t.skip(pos));
}

} // verus!
