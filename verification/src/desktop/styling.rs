//! How the writing view draws a source line: markup quiet, heading text
//! semibold, quote text italic, and never a character hidden.

use vstd::prelude::*;
use crate::text::{chars_of, string_of, slice_chars};

verus! {

/// How a run of a source line is drawn in the writing view.
#[derive(Debug, Clone, Copy, PartialEq, Eq, Structural)]
pub enum RunStyle {
    /// Markup (a heading's hashes, a quote or list marker): drawn quiet.
    Quiet,
    /// A heading's text.
    Semibold,
    /// A quote's text.
    Italic,
    Plain,
}

/// A run of a source line and how it is drawn.
#[derive(Debug, Clone)]
pub struct StyledRun {
    pub text: String,
    pub style: RunStyle,
}

/// The number of `#` a line starts with.
pub open spec fn leading_hashes(line: Seq<char>) -> nat
    decreases line.len(),
{
    if line.len() > 0 && line[0] == '#' {
        1 + leading_hashes(line.drop_first())
    } else {
        0
    }
}

/// The runs the writing view draws a source line as: a heading's marker
/// (1 to 6 `#` and a space) quiet and its text semibold; a quote's `> `
/// quiet and its text italic; a list item's `- ` or `* ` quiet; else the
/// line as is. The source stays visible: the runs join back into the line.
pub open spec fn line_runs_spec(line: Seq<char>) -> Seq<(Seq<char>, RunStyle)> {
    let h = leading_hashes(line);
    if 1 <= h <= 6 && line.len() > h && line[h as int] == ' ' {
        seq![(line.take(h + 1 as int), RunStyle::Quiet), (line.skip(h + 1 as int), RunStyle::Semibold)]
    } else if line.len() >= 2 && line[0] == '>' && line[1] == ' ' {
        seq![(line.take(2), RunStyle::Quiet), (line.skip(2), RunStyle::Italic)]
    } else if line.len() >= 2 && (line[0] == '-' || line[0] == '*') && line[1] == ' ' {
        seq![(line.take(2), RunStyle::Quiet), (line.skip(2), RunStyle::Plain)]
    } else {
        seq![(line, RunStyle::Plain)]
    }
}

pub open spec fn run_views(rs: Seq<StyledRun>) -> Seq<(Seq<char>, RunStyle)> {
    rs.map_values(|r: StyledRun| (r.text@, r.style))
}

proof fn lemma_leading_hashes(line: Seq<char>, i: int)
    requires
        0 <= i <= line.len(),
        forall|k: int| 0 <= k < i ==> line[k] == '#',
    ensures
        leading_hashes(line) == i + leading_hashes(line.skip(i)),
    decreases i,
{
    if i > 0 {
        assert(line.drop_first().skip(i - 1) =~= line.skip(i));
        lemma_leading_hashes(line.drop_first(), i - 1);
    } else {
        assert(line.skip(0) =~= line);
    }
}

fn two_runs(cs: &Vec<char>, k: usize, first: RunStyle, second: RunStyle) -> (r: Vec<StyledRun>)
    requires
        k <= cs@.len(),
    ensures
        run_views(r@) == seq![(cs@.take(k as int), first), (cs@.skip(k as int), second)],
{
    let head = slice_chars(cs, 0, k);
    let tail = slice_chars(cs, k, cs.len());
    let mut out: Vec<StyledRun> = Vec::new();
    out.push(StyledRun { text: string_of(head.as_slice()), style: first });
    out.push(StyledRun { text: string_of(tail.as_slice()), style: second });
    assert(head@ =~= cs@.take(k as int));
    assert(tail@ =~= cs@.skip(k as int));
    assert(run_views(out@) =~= seq![(cs@.take(k as int), first), (cs@.skip(k as int), second)]);
    out
}

/// A source line split into the runs the writing view draws.
pub fn line_spans(line: &str) -> (r: Vec<StyledRun>)
    ensures
        run_views(r@) == line_runs_spec(line@),
{
    let cs = chars_of(line);
    let n = cs.len();
    let mut h: usize = 0;
    while h < n && cs[h] == '#'
        invariant
            h <= n == cs@.len(),
            forall|k: int| 0 <= k < h ==> cs@[k] == '#',
        decreases n - h,
    {
        h = h + 1;
    }
    proof {
        lemma_leading_hashes(cs@, h as int);
        if h < n {
            assert(cs@.skip(h as int)[0] == cs@[h as int]);
        } else {
            assert(cs@.skip(h as int).len() == 0);
        }
        assert(leading_hashes(cs@) == h);
    }
    if 1 <= h && h <= 6 && n > h && cs[h] == ' ' {
        return two_runs(&cs, h + 1, RunStyle::Quiet, RunStyle::Semibold);
    }
    if n >= 2 && cs[0] == '>' && cs[1] == ' ' {
        return two_runs(&cs, 2, RunStyle::Quiet, RunStyle::Italic);
    }
    if n >= 2 && (cs[0] == '-' || cs[0] == '*') && cs[1] == ' ' {
        return two_runs(&cs, 2, RunStyle::Quiet, RunStyle::Plain);
    }
    let mut out: Vec<StyledRun> = Vec::new();
    out.push(StyledRun { text: string_of(cs.as_slice()), style: RunStyle::Plain });
    assert(run_views(out@) =~= seq![(line@, RunStyle::Plain)]);
    out
}

/// The text of runs, joined.
pub open spec fn runs_text(rs: Seq<(Seq<char>, RunStyle)>) -> Seq<char>
    decreases rs.len(),
{
    if rs.len() == 0 {
        Seq::empty()
    } else {
        runs_text(rs.drop_last()) + rs.last().0
    }
}

/// Styling never hides source: the runs of a line join back into it.
pub proof fn lemma_runs_keep_the_source(line: Seq<char>)
    ensures
        runs_text(line_runs_spec(line)) == line,
{
    let rs = line_runs_spec(line);
    let e = Seq::<(Seq<char>, RunStyle)>::empty();
    assert(runs_text(e) == Seq::<char>::empty());
    if rs.len() == 2 {
        assert(rs.drop_last().drop_last() =~= e);
        assert(rs.drop_last().last() == rs[0]);
        assert(runs_text(rs.drop_last()) == runs_text(e) + rs[0].0);
        assert(runs_text(rs) == runs_text(rs.drop_last()) + rs[1].0);
        assert(rs[0].0 + rs[1].0 =~= line);
        assert(Seq::<char>::empty() + rs[0].0 =~= rs[0].0);
    } else {
        assert(rs.drop_last() =~= e);
        assert(runs_text(rs) == runs_text(e) + rs[0].0);
        assert(Seq::<char>::empty() + line =~= line);
    }
}

} // verus!
