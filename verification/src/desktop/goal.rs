//! The session word goal: reading the prompt's input, and the progress
//! the chrome shows.

use vstd::prelude::*;
use crate::lines::{trim, trim_chars};
use crate::text::{chars_of, string_of, append_chars, decimal, dec_of};

verus! {

/// A session word goal: progress counts the words written since it was
/// set.
#[derive(Debug, Clone, Copy, PartialEq, Eq, Structural)]
pub struct Goal {
    pub target: usize,
    pub baseline: usize,
}

/// What the goal prompt's input asks for: clear the goal (empty input),
/// set it (a positive number), or nothing (anything else; the prompt stays
/// open with a hint).
#[derive(Debug, Clone, Copy, PartialEq, Eq, Structural)]
pub enum GoalEntry {
    Clear,
    SetTo(Goal),
    Invalid,
}

/// The value of a run of ASCII digits.
pub open spec fn digits_value(s: Seq<char>) -> nat
    decreases s.len(),
{
    if s.len() == 0 {
        0
    } else {
        digits_value(s.drop_last()) * 10 + (s.last() as nat - '0' as nat) as nat
    }
}

pub open spec fn all_digits(s: Seq<char>) -> bool {
    forall|i: int| 0 <= i < s.len() ==> '0' <= #[trigger] s[i] <= '9'
}

/// What `str::parse::<usize>` accepts: an optional `+`, then one or more
/// ASCII digits whose value fits.
pub open spec fn parse_usize_spec(s: Seq<char>) -> Option<nat> {
    let d = if s.len() > 0 && s[0] == '+' { s.drop_first() } else { s };
    if d.len() > 0 && all_digits(d) && digits_value(d) <= usize::MAX {
        Some(digits_value(d))
    } else {
        None
    }
}

proof fn lemma_digits_value_grows(s: Seq<char>, i: int)
    requires
        0 <= i <= s.len(),
        all_digits(s),
    ensures
        digits_value(s.take(i)) <= digits_value(s),
    decreases s.len() - i,
{
    if i < s.len() {
        lemma_digits_value_grows(s, i + 1);
        assert(s.take(i + 1).drop_last() =~= s.take(i));
        assert(s.take(i + 1).last() == s[i]);
        assert('0' <= s[i] <= '9');
    } else {
        assert(s.take(i) =~= s);
    }
}

/// `str::parse::<usize>`, on chars.
fn parse_usize(s: &Vec<char>) -> (r: Option<usize>)
    ensures
        match parse_usize_spec(s@) {
            Some(v) => r == Some(v as usize),
            None => r is None,
        },
{
    let start: usize = if s.len() > 0 && s[0] == '+' { 1 } else { 0 };
    let ghost d = if s@.len() > 0 && s@[0] == '+' { s@.drop_first() } else { s@ };
    assert(d =~= s@.skip(start as int));
    if start >= s.len() {
        return None;
    }
    let mut v: usize = 0;
    let mut i: usize = start;
    assert(d.take(0) =~= Seq::<char>::empty());
    while i < s.len()
        invariant
            start <= i <= s@.len(),
            d == (if s@.len() > 0 && s@[0] == '+' { s@.drop_first() } else { s@ }),
            d =~= s@.skip(start as int),
            all_digits(d.take(i - start)),
            v == digits_value(d.take(i - start)),
        decreases s@.len() - i,
    {
        let c = s[i];
        if !('0' <= c && c <= '9') {
            assert(d[i - start] == c);
            return None;
        }
        let k = i - start;
        assert(d.take(k + 1).drop_last() =~= d.take(k as int));
        assert(d.take(k + 1).last() == c);
        let digit = (c as u32 - '0' as u32) as usize;
        let next = v.checked_mul(10);
        let next = match next {
            Some(n) => n.checked_add(digit),
            None => None,
        };
        match next {
            Some(n) => {
                v = n;
            },
            None => {
                proof {
                    assert(digits_value(d.take(k + 1)) > usize::MAX);
                    if all_digits(d) {
                        lemma_digits_value_grows(d, k + 1);
                    }
                }
                return None;
            },
        }
        i = i + 1;
    }
    assert(d.take(i - start) =~= d);
    Some(v)
}

/// Read the goal prompt's input (trimmed) with `words` words in the
/// document now.
pub fn goal_entry(input: &str, words: usize) -> (r: GoalEntry)
    ensures
        ({
            let t = trim(input@);
            r == if t.len() == 0 {
                GoalEntry::Clear
            } else {
                match parse_usize_spec(t) {
                    Some(v) if v > 0 => GoalEntry::SetTo(Goal { target: v as usize, baseline: words }),
                    _ => GoalEntry::Invalid,
                }
            }
        }),
{
    let cs = chars_of(input);
    let t = trim_chars(&cs);
    if t.len() == 0 {
        return GoalEntry::Clear;
    }
    match parse_usize(&t) {
        Some(target) => {
            if target > 0 {
                GoalEntry::SetTo(Goal { target, baseline: words })
            } else {
                GoalEntry::Invalid
            }
        },
        None => GoalEntry::Invalid,
    }
}

/// The chrome's goal part: `session <written>/<target>`, with ` ✓` once the
/// words written since the goal was set reach it.
pub open spec fn goal_progress_spec(goal: Goal, words: nat) -> Seq<char> {
    let written = if words >= goal.baseline { words - goal.baseline } else { 0 };
    "session "@ + dec_of(written as nat) + seq!['/'] + dec_of(goal.target as nat) + if written >= goal.target {
        seq![' ', '\u{2713}']
    } else {
        Seq::empty()
    }
}

pub fn goal_progress(goal: Goal, words: usize) -> (r: String)
    ensures
        r@ == goal_progress_spec(goal, words as nat),
{
    let written = words.saturating_sub(goal.baseline);
    let mut v = chars_of("session ");
    let w = decimal(written as u64);
    append_chars(&mut v, &w);
    v.push('/');
    let t = decimal(goal.target as u64);
    append_chars(&mut v, &t);
    if written >= goal.target {
        v.push(' ');
        v.push('\u{2713}');
    }
    string_of(v.as_slice())
}

} // verus!
