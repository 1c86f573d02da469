//! What a native (Swift/iOS) front-end calls: the reading-view blocks, a
//! whole-document word count, smart punctuation for the character just
//! typed, and a live document it edits, with the bridge's integer widths.
//! Sharing the document across threads is the binding's part.

use vstd::prelude::*;
use crate::preview::{PreviewBlock, render, render_spec, block_views};
use crate::segment::{unicode_words, words_of};
use crate::typography::{substitute_in_context, substitute_spec, code_context};
use crate::text::{chars_of, string_of};
use crate::document::{Document, DocV, insert_str_spec, backspace_spec, doc_undo_spec, doc_redo_spec, move_spec, clamp, with_history, caret};
use crate::history::{HistoryV, commit_spec};

verus! {

/// A smart-punctuation edit: delete `delete_before` chars before the caret,
/// then insert `insert`.
#[derive(Debug)]
pub struct SmartSub {
    pub delete_before: u32,
    pub insert: String,
}

/// Render markdown into preview blocks for the native reading view.
pub fn render_preview(markdown: String) -> (r: Vec<PreviewBlock>)
    ensures
        block_views(r@) == render_spec(markdown@),
{
    render(markdown.as_str())
}

/// Word count for a whole document (Unicode words; an emoji is not one),
/// as the bridge's 32-bit count.
pub fn word_count(text: String) -> (n: u32)
    ensures
        n == words_of(text@).len() as u32,
{
    let words = unicode_words(text.as_str());
    #[verifier::truncate]
    (words.len() as u32)
}

/// What the smart-punctuation step makes of `typed` after `before`: only a
/// single typed character is considered, and nothing happens inside code.
pub open spec fn smart_sub_spec(before: Seq<char>, typed: Seq<char>) -> Option<(nat, Seq<char>)> {
    if typed.len() != 1 || code_context(before) {
        None
    } else {
        substitute_spec(before, typed[0])
    }
}

/// Given the text before the caret and the single character just typed,
/// return the smart-punctuation substitution — or nothing (including inside
/// code spans/fences). The native text view applies the result.
pub fn smart_substitution(before: String, typed: String) -> (r: Option<SmartSub>)
    ensures
        match smart_sub_spec(before@, typed@) {
            Some((n, s)) => r matches Some(x) && x.delete_before == n && x.insert@ == s,
            None => r is None,
        },
{
    let cs = chars_of(typed.as_str());
    if cs.len() != 1 {
        return None;
    }
    match substitute_in_context(before.as_str(), cs[0]) {
        Some(s) => {
            proof {
                assert(s.delete_before <= 2) by {
                    assert(substitute_spec(before@, typed@[0]) matches Some((k, _)) ==> k <= 2);
                }
            }
            let ins = chars_of(s.insert);
            Some(SmartSub { delete_before: s.delete_before as u32, insert: string_of(ins.as_slice()) })
        },
        None => None,
    }
}

/// A live document the native layer drives.
pub struct PolarisDocument {
    inner: Document,
}

impl View for PolarisDocument {
    type V = DocV;

    closed spec fn view(&self) -> DocV {
        self.inner@
    }
}

impl PolarisDocument {
    #[verifier::type_invariant]
    closed spec fn inv(self) -> bool {
        self.inner.wf()
    }

    /// An in-memory document seeded with `text` (the host loaded it).
    pub fn new(text: String) -> (d: Self)
        ensures
            d@.text == text@,
            d@.cursor == caret(0),
            d@.history == (HistoryV { undo: Seq::empty(), redo: Seq::empty(), open: None }),
            !d@.dirty,
    {
        PolarisDocument { inner: Document::from_str(text.as_str()) }
    }

    /// The full text, for the host to persist.
    pub fn text(&self) -> (r: String)
        ensures
            r@ == self@.text,
    {
        self.inner.text()
    }

    pub fn insert(&mut self, text: String)
        ensures
            final(self)@ == insert_str_spec(old(self)@, text@),
    {
        proof {
            use_type_invariant(&*self);
        }
        let mut d = Document::new();
        std::mem::swap(&mut d, &mut self.inner);
        d.insert_str(text.as_str());
        self.inner = d;
    }

    pub fn newline(&mut self)
        ensures
            final(self)@ == insert_str_spec(old(self)@, seq!['\n']),
    {
        proof {
            use_type_invariant(&*self);
        }
        let mut d = Document::new();
        std::mem::swap(&mut d, &mut self.inner);
        d.insert_newline();
        self.inner = d;
    }

    pub fn backspace(&mut self)
        ensures
            final(self)@ == backspace_spec(old(self)@),
    {
        proof {
            use_type_invariant(&*self);
        }
        let mut d = Document::new();
        std::mem::swap(&mut d, &mut self.inner);
        d.backspace();
        self.inner = d;
    }

    /// Undo one grouped edit; `true` if anything changed.
    pub fn undo(&mut self) -> (changed: bool)
        ensures
            changed == doc_undo_spec(old(self)@) is Some,
            changed ==> final(self)@ == doc_undo_spec(old(self)@)->0,
            !changed ==> final(self)@ == with_history(old(self)@, commit_spec(old(self)@.history)),
    {
        proof {
            use_type_invariant(&*self);
        }
        let mut d = Document::new();
        std::mem::swap(&mut d, &mut self.inner);
        let changed = d.undo();
        self.inner = d;
        changed
    }

    pub fn redo(&mut self) -> (changed: bool)
        ensures
            changed == doc_redo_spec(old(self)@) is Some,
            changed ==> final(self)@ == doc_redo_spec(old(self)@)->0,
            !changed ==> final(self)@ == with_history(old(self)@, commit_spec(old(self)@.history)),
    {
        proof {
            use_type_invariant(&*self);
        }
        let mut d = Document::new();
        std::mem::swap(&mut d, &mut self.inner);
        let changed = d.redo();
        self.inner = d;
        changed
    }

    /// The document's Unicode word count, as the bridge's 32-bit count.
    pub fn word_count(&self) -> (n: u32)
        ensures
            n == words_of(self@.text).len() as u32,
    {
        let w = self.inner.word_count();
        #[verifier::truncate]
        (w as u32)
    }

    /// The caret as a char index.
    pub fn cursor(&self) -> (r: u64)
        ensures
            r == self@.cursor.pos as u64,
    {
        #[verifier::truncate]
        (self.inner.cursor().pos as u64)
    }

    /// Move the caret to a char index (clamped to the text; the host text
    /// view drives this).
    pub fn set_cursor(&mut self, pos: u64)
        ensures
            final(self)@ == move_spec(old(self)@, clamp((pos as usize) as int, old(self)@.text.len() as int) as nat, false, None),
    {
        proof {
            use_type_invariant(&*self);
        }
        let mut d = Document::new();
        std::mem::swap(&mut d, &mut self.inner);
        #[verifier::truncate]
        let p = pos as usize;
        d.set_cursor_pos(p, false);
        self.inner = d;
    }

    pub fn len_chars(&self) -> (r: u64)
        ensures
            r == self@.text.len() as u64,
    {
        #[verifier::truncate]
        (self.inner.buffer().len_chars() as u64)
    }

    pub fn is_dirty(&self) -> (b: bool)
        ensures
            b == self@.dirty,
    {
        self.inner.is_dirty()
    }
}

} // verus!
