//! The find bar: the matches of the query in the document, and cycling
//! through them with the current one selected.

use vstd::prelude::*;
use std::ops::Range;
use crate::document::{Document, find_from};
use crate::desktop::session::place_spec;

verus! {

pub open spec fn ranges_view(v: Seq<Range<usize>>) -> Seq<(nat, nat)> {
    v.map_values(|x: Range<usize>| (x.start as nat, x.end as nat))
}

/// The find bar: the matches of the query and which one is current.
pub struct FindState {
    matches: Vec<Range<usize>>,
    current: usize,
}

/// The match `Enter` (or `Shift+Enter`, backwards) moves to from
/// `current` among `len` matches, wrapping around.
pub open spec fn next_match(current: int, len: int, backwards: bool) -> int {
    if backwards {
        (current + len - 1) % len
    } else {
        (current + 1) % len
    }
}

impl FindState {
    /// The current match is one of the matches (the first slot when there
    /// are none).
    #[verifier::type_invariant]
    closed spec fn inv(self) -> bool {
        self.current < self.matches@.len() || self.current == 0
    }

    pub closed spec fn matches_view(self) -> Seq<Range<usize>> {
        self.matches@
    }

    pub closed spec fn current_index(self) -> usize {
        self.current
    }

    pub fn new() -> (f: Self)
        ensures
            f.matches_view().len() == 0,
            f.current_index() == 0,
    {
        FindState { matches: Vec::new(), current: 0 }
    }

    pub fn matches(&self) -> (r: &[Range<usize>])
        ensures
            r@ == self.matches_view(),
    {
        self.matches.as_slice()
    }

    pub fn current(&self) -> (r: usize)
        ensures
            r == self.current_index(),
    {
        self.current
    }

    /// Search `doc` for `query` again; the current match stays where it was
    /// while it still exists, else goes back to the first.
    pub fn refresh(&mut self, doc: &Document, query: &str)
        ensures
            ranges_view(final(self).matches_view()) == find_from(doc@.text, query@, 0),
            final(self).current_index() == if old(self).current_index() >= final(self).matches_view().len() {
                0
            } else {
                old(self).current_index()
            },
    {
        let found = doc.find(query);
        let current = if self.current >= found.len() { 0 } else { self.current };
        *self = FindState { matches: found, current };
    }

    /// Make match `idx` current and select it in the document.
    pub fn select(&mut self, doc: &mut Document, idx: usize)
        requires
            old(doc).wf(),
        ensures
            final(doc).wf(),
            final(doc).path_value() == old(doc).path_value(),
            final(self).matches_view() == old(self).matches_view(),
            idx < old(self).matches_view().len() ==> {
                let m = old(self).matches_view()[idx as int];
                &&& final(self).current_index() == idx
                &&& final(doc)@ == place_spec(place_spec(old(doc)@, m.start as int, false), m.end as int, true)
            },
            idx >= old(self).matches_view().len() ==> final(self).current_index() == old(self).current_index()
                && final(doc)@ == old(doc)@,
    {
        if idx < self.matches.len() {
            let start = self.matches[idx].start;
            let end = self.matches[idx].end;
            self.current = idx;
            doc.set_cursor_pos(start, false);
            doc.set_cursor_pos(end, true);
        }
    }

    /// `Enter` in the find bar: select the next match (the previous one,
    /// backwards), wrapping around; nothing when there is none.
    pub fn cycle(&mut self, doc: &mut Document, backwards: bool)
        requires
            old(doc).wf(),
        ensures
            final(doc).wf(),
            final(doc).path_value() == old(doc).path_value(),
            final(self).matches_view() == old(self).matches_view(),
            old(self).matches_view().len() == 0 ==> final(self).current_index() == old(self).current_index()
                && final(doc)@ == old(doc)@,
            old(self).matches_view().len() > 0 ==> {
                let idx = next_match(
                    old(self).current_index() as int,
                    old(self).matches_view().len() as int,
                    backwards,
                );
                let m = old(self).matches_view()[idx];
                &&& final(self).current_index() == idx
                &&& final(doc)@ == place_spec(place_spec(old(doc)@, m.start as int, false), m.end as int, true)
            },
    {
        proof {
            use_type_invariant(&*self);
        }
        let len = self.matches.len();
        if len > 0 {
            let c = self.current;
            proof {
                vstd::arithmetic::div_mod::lemma_mod_self_0(len as int);
                if c > 0 {
                    vstd::arithmetic::div_mod::lemma_mod_add_multiples_vanish((c - 1) as int, len as int);
                    vstd::arithmetic::div_mod::lemma_small_mod((c - 1) as nat, len as nat);
                } else {
                    vstd::arithmetic::div_mod::lemma_small_mod((len - 1) as nat, len as nat);
                }
                if c + 1 < len {
                    vstd::arithmetic::div_mod::lemma_small_mod((c + 1) as nat, len as nat);
                }
            }
            let next = if backwards {
                if c == 0 {
                    len - 1
                } else {
                    c - 1
                }
            } else if c + 1 == len {
                0
            } else {
                c + 1
            };
            self.select(doc, next);
        }
    }
}

} // verus!
