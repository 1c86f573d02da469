//! Unicode text segmentation (grapheme clusters, word bounds, words) as
//! UAX #29 defines it, computed by the `unicode-segmentation` crate, and the
//! spec helpers that locate segments inside a text.

use vstd::prelude::*;
use unicode_segmentation::UnicodeSegmentation;
use crate::text::chars_of;

verus! {

/// The extended grapheme clusters of `s`, in order.
pub uninterp spec fn graphemes_of(s: Seq<char>) -> Seq<Seq<char>>;

/// The pieces of `s` between its UAX #29 word boundaries, in order.
pub uninterp spec fn word_bounds_of(s: Seq<char>) -> Seq<Seq<char>>;

/// The UAX #29 words of `s` (the word-bound pieces holding a letter or digit).
pub uninterp spec fn words_of(s: Seq<char>) -> Seq<Seq<char>>;

/// `char::is_alphanumeric`: Unicode Alphabetic or Numeric.
pub uninterp spec fn is_alnum(c: char) -> bool;

/// The pieces, joined back together (last piece last).
pub open spec fn concat_all(gs: Seq<Seq<char>>) -> Seq<char>
    decreases gs.len(),
{
    if gs.len() == 0 {
        Seq::empty()
    } else {
        concat_all(gs.drop_last()) + gs.last()
    }
}

/// `gs` splits its text into non-empty pieces.
pub open spec fn is_partition(gs: Seq<Seq<char>>, s: Seq<char>) -> bool {
    &&& concat_all(gs) == s
    &&& forall|i: int| 0 <= i < gs.len() ==> #[trigger] gs[i].len() > 0
}

/// Char offset where piece `i` starts.
pub open spec fn seg_start(gs: Seq<Seq<char>>, i: int) -> int {
    concat_all(gs.take(i)).len() as int
}

/// Views of a vector of strings.
pub open spec fn views(v: Seq<String>) -> Seq<Seq<char>> {
    v.map_values(|x: String| x@)
}

/// `str::graphemes(true)`: the extended grapheme clusters of `s`. They
/// join back into `s` and none is empty.
#[verifier::external_body]
pub(crate) fn graphemes(s: &str) -> (r: Vec<String>)
    ensures
        views(r@) == graphemes_of(s@),
        is_partition(views(r@), s@),
{
    s.graphemes(true).map(String::from).collect()
}

/// `str::split_word_bounds`: the pieces between word boundaries. They join
/// back into `s` and none is empty.
#[verifier::external_body]
pub(crate) fn word_bounds(s: &str) -> (r: Vec<String>)
    ensures
        views(r@) == word_bounds_of(s@),
        is_partition(views(r@), s@),
{
    s.split_word_bounds().map(String::from).collect()
}

/// `str::unicode_words`: the words of `s`.
#[verifier::external_body]
pub(crate) fn unicode_words(s: &str) -> (r: Vec<String>)
    ensures
        views(r@) == words_of(s@),
{
    s.unicode_words().map(String::from).collect()
}

/// `char::is_alphanumeric`. Among ASCII chars, exactly the letters and
/// digits are Alphabetic or Numeric.
#[verifier::external_body]
pub(crate) fn char_is_alphanumeric(c: char) -> (b: bool)
    ensures
        b == is_alnum(c),
        (c as u32) < 128 ==> (b == (('a' <= c && c <= 'z') || ('A' <= c && c <= 'Z') || ('0' <= c && c <= '9'))),
{
    c.is_alphanumeric()
}

/// The piece holds a letter or digit.
pub open spec fn has_alnum(g: Seq<char>) -> bool {
    exists|k: int| 0 <= k < g.len() && is_alnum(#[trigger] g[k])
}

pub fn seq_has_alnum(g: &Vec<char>) -> (b: bool)
    ensures
        b == has_alnum(g@),
{
    let mut i: usize = 0;
    while i < g.len()
        invariant
            i <= g.len(),
            forall|k: int| 0 <= k < i ==> !is_alnum(#[trigger] g@[k]),
        decreases g.len() - i,
    {
        if char_is_alphanumeric(g[i]) {
            return true;
        }
        i = i + 1;
    }
    false
}

/// Joining one more piece appends it, and its start is where the previous
/// pieces end.
pub proof fn lemma_concat_take(gs: Seq<Seq<char>>, i: int)
    requires
        0 <= i < gs.len(),
    ensures
        concat_all(gs.take(i + 1)) == concat_all(gs.take(i)) + gs[i],
        seg_start(gs, i + 1) == seg_start(gs, i) + gs[i].len(),
{
    assert(gs.take(i + 1).drop_last() =~= gs.take(i));
    assert(gs.take(i + 1).last() == gs[i]);
}

/// Piece starts lie within the joined text, and the last ends it.
pub proof fn lemma_seg_start_bounds(gs: Seq<Seq<char>>, i: int)
    requires
        0 <= i <= gs.len(),
    ensures
        0 <= seg_start(gs, i) <= concat_all(gs).len(),
        concat_all(gs).len() == seg_start(gs, gs.len() as int),
    decreases gs.len() - i,
{
    assert(gs.take(gs.len() as int) =~= gs);
    if i < gs.len() {
        lemma_concat_take(gs, i);
        lemma_seg_start_bounds(gs, i + 1);
    }
}

/// The first `i` pieces join into a prefix of the whole.
pub proof fn lemma_concat_prefix(gs: Seq<Seq<char>>, i: int)
    requires
        0 <= i <= gs.len(),
    ensures
        concat_all(gs).take(seg_start(gs, i)) == concat_all(gs.take(i)),
    decreases gs.len() - i,
{
    if i == gs.len() {
        assert(gs.take(i) =~= gs);
        assert(concat_all(gs).take(seg_start(gs, i)) =~= concat_all(gs));
    } else {
        lemma_concat_prefix(gs, i + 1);
        lemma_concat_take(gs, i);
        let a = concat_all(gs.take(i));
        assert((a + gs[i]).take(a.len() as int) =~= a);
        lemma_seg_start_bounds(gs, i + 1);
        assert(concat_all(gs).take(seg_start(gs, i)) =~= concat_all(gs).take(
            seg_start(gs, i + 1),
        ).take(seg_start(gs, i)));
    }
}

/// Char lengths of the pieces and their start offsets.
pub fn piece_offsets(pieces: &Vec<String>, total: usize) -> (r: (Vec<usize>, Vec<Vec<char>>))
    requires
        concat_all(views(pieces@)).len() == total,
    ensures
        r.0.len() == pieces.len() + 1,
        r.1.len() == pieces.len(),
        forall|i: int| 0 <= i <= pieces.len() ==> r.0@[i] == seg_start(views(pieces@), i),
        forall|i: int| 0 <= i < pieces.len() ==> (#[trigger] r.1@[i])@ == pieces@[i]@,
{
    let ghost gs = views(pieces@);
    let mut starts: Vec<usize> = Vec::new();
    let mut chars: Vec<Vec<char>> = Vec::new();
    let mut off: usize = 0;
    starts.push(0);
    assert(gs.take(0) =~= Seq::<Seq<char>>::empty());
    let mut i: usize = 0;
    while i < pieces.len()
        invariant
            gs == views(pieces@),
            concat_all(gs).len() == total,
            i <= pieces.len(),
            starts.len() == i + 1,
            chars.len() == i,
            off == seg_start(gs, i as int),
            forall|k: int| 0 <= k <= i ==> starts@[k] == seg_start(gs, k),
            forall|k: int| 0 <= k < i ==> (#[trigger] chars@[k])@ == pieces@[k]@,
        decreases pieces.len() - i,
    {
        let c = chars_of(pieces[i].as_str());
        proof {
            lemma_concat_take(gs, i as int);
            lemma_seg_start_bounds(gs, i + 1);
            assert(gs[i as int] == pieces@[i as int]@);
        }
        off = off + c.len();
        starts.push(off);
        chars.push(c);
        i = i + 1;
    }
    (starts, chars)
}

} // verus!
