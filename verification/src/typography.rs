//! Smart-punctuation transforms, applied at input time so the file itself
//! carries the real characters.
//!
//! These are pure functions: given the text before the cursor and the char
//! just typed, they say what to substitute. Inside markdown code (a fenced
//! block or an inline span) nothing is substituted when the guarded entry
//! point is used.

use vstd::prelude::*;
use crate::text::{chars_of, char_is_whitespace, is_ws};

verus! {

/// A substitution to apply instead of inserting the typed character.
#[derive(Debug, Clone, PartialEq, Eq)]
pub struct Substitution {
    /// Chars to delete immediately before the cursor first.
    pub delete_before: usize,
    /// Text to insert in place of the typed character.
    pub insert: &'static str,
}

/// `l` without its leading whitespace.
pub open spec fn trim_start(l: Seq<char>) -> Seq<char>
    decreases l.len(),
{
    if l.len() > 0 && is_ws(l[0]) {
        trim_start(l.drop_first())
    } else {
        l
    }
}

/// A line that opens or closes a fenced code block.
pub open spec fn is_fence_line(l: Seq<char>) -> bool {
    let t = trim_start(l);
    t.len() >= 3 && t[0] == '`' && t[1] == '`' && t[2] == '`'
}

/// Index of the first `\n` in `s` at or after `i` (`s.len()` if none).
pub open spec fn next_newline(s: Seq<char>, i: int) -> int
    decreases s.len() - i,
{
    if i >= s.len() || (i >= 0 && s[i] == '\n') {
        i
    } else {
        next_newline(s, i + 1)
    }
}

/// How many of the `\n`-separated lines of `s` are fence lines.
pub open spec fn fence_count(s: Seq<char>) -> nat
    decreases s.len(),
{
    let k = next_newline(s, 0);
    let here: nat = if is_fence_line(s.take(k)) {
        1
    } else {
        0
    };
    if k >= s.len() {
        here
    } else {
        proof {
            lemma_next_newline_bounds(s, 0);
        }
        here + fence_count(s.skip(k + 1))
    }
}

/// The next newline at or after `i` lies within the text, and is one.
pub proof fn lemma_next_newline_bounds(s: Seq<char>, i: int)
    requires
        0 <= i,
    ensures
        i <= next_newline(s, i),
        i <= s.len() ==> next_newline(s, i) <= s.len(),
        next_newline(s, i) < s.len() ==> s[next_newline(s, i)] == '\n',
    decreases s.len() - i,
{
    if i < s.len() && s[i] != '\n' {
        lemma_next_newline_bounds(s, i + 1);
    }
}

/// The text after the last `\n` of `s` (all of `s` if it has none).
pub open spec fn last_line(s: Seq<char>) -> Seq<char>
    decreases s.len(),
{
    if s.len() == 0 {
        s
    } else if s.last() == '\n' {
        Seq::empty()
    } else {
        last_line(s.drop_last()).push(s.last())
    }
}

/// Occurrences of `c` in `s`.
pub open spec fn count_char(s: Seq<char>, c: char) -> nat
    decreases s.len(),
{
    if s.len() == 0 {
        0
    } else {
        count_char(s.drop_last(), c) + if s.last() == c {
            1nat
        } else {
            0nat
        }
    }
}

/// Inside a fenced block (an odd number of fence lines so far) or an inline
/// code span (an odd number of backticks on the current line).
pub open spec fn code_context(before: Seq<char>) -> bool {
    fence_count(before) % 2 == 1 || count_char(last_line(before), '`') % 2 == 1
}

/// A quote typed after `before` opens: at the start, after whitespace, or
/// after an opening bracket, quote or dash.
pub open spec fn opens_quote_spec(before: Seq<char>) -> bool {
    before.len() == 0 || {
        let c = before.last();
        is_ws(c) || c == '(' || c == '[' || c == '{' || c == '\u{201C}' || c == '\u{2018}' || c
            == '\u{2014}' || c == '-' || c == '/'
    }
}

/// The current line is non-empty and made of hyphens only.
pub open spec fn line_is_hyphens(before: Seq<char>) -> bool {
    let l = last_line(before);
    l.len() > 0 && forall|i: int| 0 <= i < l.len() ==> l[i] == '-'
}

/// What typing `typed` after `before` becomes: `None` to insert it as is,
/// else (chars to delete before the cursor, text to insert).
pub open spec fn substitute_spec(before: Seq<char>, typed: char) -> Option<(nat, Seq<char>)> {
    if typed == '"' {
        Some((0, if opens_quote_spec(before) { seq!['\u{201C}'] } else { seq!['\u{201D}'] }))
    } else if typed == '\'' {
        Some((0, if opens_quote_spec(before) { seq!['\u{2018}'] } else { seq!['\u{2019}'] }))
    } else if typed == '-' && before.len() >= 1 && before.last() == '-' && !line_is_hyphens(before) {
        Some((1, seq!['\u{2014}']))
    } else if typed == '.' && before.len() >= 2 && before[before.len() - 1] == '.'
        && before[before.len() - 2] == '.' && !(before.len() >= 3 && before[before.len() - 3]
        == '.') {
        Some((2, seq!['\u{2026}']))
    } else {
        None
    }
}

pub open spec fn sub_view(s: Option<Substitution>) -> Option<(nat, Seq<char>)> {
    match s {
        Some(x) => Some((x.delete_before as nat, x.insert@)),
        None => None,
    }
}

fn count_fences(s: &Vec<char>) -> (n: usize)
    ensures
        n == fence_count(s@),
{
    let mut start: usize = 0;
    let mut n: usize = 0;
    assert(s@.skip(0) =~= s@);
    loop
        invariant
            start <= s.len(),
            n <= start,
            n + fence_count(s@.skip(start as int)) == fence_count(s@),
        decreases s.len() - start,
    {
        let ghost rest = s@.skip(start as int);
        let mut k = start;
        while k < s.len() && s[k] != '\n'
            invariant
                start <= k <= s.len(),
                rest == s@.skip(start as int),
                next_newline(rest, (k - start) as int) == next_newline(rest, 0),
            decreases s.len() - k,
        {
            k = k + 1;
        }
        let ghost kk = (k - start) as int;
        assert(next_newline(rest, kk) == kk);
        // Trim leading whitespace of the line [start, k).
        let mut j = start;
        while j < k && char_is_whitespace(s[j])
            invariant
                start <= j <= k <= s.len(),
                trim_start(s@.subrange(j as int, k as int)) == trim_start(
                    s@.subrange(start as int, k as int),
                ),
            decreases k - j,
        {
            assert(s@.subrange(j as int, k as int).drop_first() =~= s@.subrange(j + 1, k as int));
            j = j + 1;
        }
        let ghost line = s@.subrange(start as int, k as int);
        assert(rest.take(kk) =~= line);
        let fence = k - j >= 3 && s[j] == '`' && s[j + 1] == '`' && s[j + 2] == '`';
        proof {
            let t = s@.subrange(j as int, k as int);
            if j < k {
                assert(t[0] == s[j as int]);
            }
            assert(trim_start(t) == t);
            if k - j >= 3 {
                assert(t[1] == s@[j + 1] && t[2] == s@[j + 2]);
            }
            assert(fence == is_fence_line(line));
        }
        if fence {
            n = n + 1;
        }
        if k == s.len() {
            return n;
        }
        assert(rest.skip(kk + 1) =~= s@.skip(k + 1));
        start = k + 1;
    }
}

fn last_line_backticks(s: &Vec<char>) -> (n: usize)
    ensures
        n == count_char(last_line(s@), '`'),
{
    let mut i = s.len();
    let mut n: usize = 0;
    assert(s@.take(i as int) =~= s@);
    while i > 0 && s[i - 1] != '\n'
        invariant
            i <= s.len(),
            n <= s.len() - i,
            count_char(last_line(s@), '`') == count_char(last_line(s@.take(i as int)), '`') + n,
        decreases i,
    {
        proof {
            let p = s@.take(i as int);
            assert(p.drop_last() =~= s@.take(i - 1));
            assert(p.last() == s@[i - 1]);
            let ll = last_line(p.drop_last());
            assert(last_line(p) == ll.push(p.last()));
            assert(ll.push(p.last()).drop_last() =~= ll);
        }
        if s[i - 1] == '`' {
            n = n + 1;
        }
        i = i - 1;
    }
    proof {
        let p = s@.take(i as int);
        if i > 0 {
            assert(p.last() == s@[i - 1]);
        }
        assert(last_line(p) =~= Seq::<char>::empty());
    }
    n
}

fn last_line_is_hyphens(s: &Vec<char>) -> (b: bool)
    ensures
        b == line_is_hyphens(s@),
{
    let mut i = s.len();
    let mut all = true;
    assert(s@.take(i as int) =~= s@);
    assert(s@.subrange(i as int, s.len() as int) =~= Seq::<char>::empty());
    while i > 0 && s[i - 1] != '\n'
        invariant
            i <= s.len(),
            last_line(s@) == last_line(s@.take(i as int)) + s@.subrange(i as int, s.len() as int),
            all == forall|k: int| i <= k < s.len() ==> s@[k] == '-',
        decreases i,
    {
        proof {
            let p = s@.take(i as int);
            assert(p.drop_last() =~= s@.take(i - 1));
            assert(p.last() == s@[i - 1]);
            let tail = s@.subrange(i as int, s.len() as int);
            let ll = last_line(p.drop_last());
            assert(ll.push(p.last()) + tail =~= ll + s@.subrange(i - 1, s.len() as int));
        }
        if s[i - 1] != '-' {
            all = false;
        }
        i = i - 1;
    }
    proof {
        let p = s@.take(i as int);
        if i > 0 {
            assert(p.last() == s@[i - 1]);
        }
        assert(last_line(p) =~= Seq::<char>::empty());
        let l = last_line(s@);
        assert(l =~= s@.subrange(i as int, s.len() as int));
        if all {
            assert forall|k: int| 0 <= k < l.len() implies l[k] == '-' by {
                assert(l[k] == s@[i + k]);
            }
        } else {
            let k = choose|k: int| i <= k < s.len() && s@[k] != '-';
            assert(l[k - i] == s@[k]);
        }
    }
    all && i < s.len()
}

/// Inside a fenced code block (odd number of ``` fence lines so far) or an
/// inline code span (odd number of backticks on the current line)?
pub fn in_code_context(before: &str) -> (b: bool)
    ensures
        b == code_context(before@),
{
    let chars = chars_of(before);
    let fences = count_fences(&chars);
    if fences % 2 == 1 {
        return true;
    }
    last_line_backticks(&chars) % 2 == 1
}

/// A quote typed here should be an opening quote: at the start of the text,
/// after whitespace, or after an opening bracket/quote/dash.
fn opens_quote(before: &Vec<char>) -> (b: bool)
    ensures
        b == opens_quote_spec(before@),
{
    if before.len() == 0 {
        return true;
    }
    let c = before[before.len() - 1];
    char_is_whitespace(c) || c == '(' || c == '[' || c == '{' || c == '\u{201C}' || c == '\u{2018}'
        || c == '\u{2014}' || c == '-' || c == '/'
}

/// Decide the smart-punctuation substitution for `typed`, given the document
/// text before the cursor. Returns `None` when the character should be
/// inserted literally. Does not check code context.
pub fn substitute(before: &str, typed: char) -> (r: Option<Substitution>)
    ensures
        sub_view(r) == substitute_spec(before@, typed),
{
    let b = chars_of(before);
    let n = b.len();
    if typed == '"' {
        let insert = if opens_quote(&b) { "\u{201C}" } else { "\u{201D}" };
        proof {
            reveal_strlit("\u{201C}");
            reveal_strlit("\u{201D}");
        }
        Some(Substitution { delete_before: 0, insert })
    } else if typed == '\'' {
        let insert = if opens_quote(&b) { "\u{2018}" } else { "\u{2019}" };
        proof {
            reveal_strlit("\u{2018}");
            reveal_strlit("\u{2019}");
        }
        Some(Substitution { delete_before: 0, insert })
    } else if typed == '-' && n >= 1 && b[n - 1] == '-' && !last_line_is_hyphens(&b) {
        proof {
            reveal_strlit("\u{2014}");
        }
        Some(Substitution { delete_before: 1, insert: "\u{2014}" })
    } else if typed == '.' && n >= 2 && b[n - 1] == '.' && b[n - 2] == '.' && !(n >= 3 && b[n - 3]
        == '.') {
        proof {
            reveal_strlit("\u{2026}");
        }
        Some(Substitution { delete_before: 2, insert: "\u{2026}" })
    } else {
        None
    }
}

/// Like [`substitute`], but returns `None` inside a markdown code context
/// (fenced block or inline span), so `--verbose` and `"flags"` stay literal.
pub fn substitute_in_context(before: &str, typed: char) -> (r: Option<Substitution>)
    ensures
        sub_view(r) == if code_context(before@) {
            None
        } else {
            substitute_spec(before@, typed)
        },
{
    if in_code_context(before) {
        return None;
    }
    substitute(before, typed)
}


/// A quote typed at the start of the text, or right after any whitespace
/// (a space, a tab, a line break or any other Unicode white space) or an
/// opening bracket, opens: `"` becomes “ and `'` becomes ‘.
pub proof fn lemma_quote_opens_after_space_or_bracket(before: Seq<char>)
    requires
        before.len() == 0 || {
            let c = before.last();
            ||| c == ' '
            ||| c == '\t'
            ||| c == '\n'
            ||| c == '\r'
            ||| c == '\u{a0}'
            ||| c == '\u{2028}'
            ||| c == '\u{3000}'
            ||| is_ws(c)
            ||| c == '('
            ||| c == '['
            ||| c == '{'
        },
    ensures
        substitute_spec(before, '"') == Some((0nat, seq!['\u{201C}'])),
        substitute_spec(before, '\'') == Some((0nat, seq!['\u{2018}'])),
{
}

/// A quote typed right after a letter, a digit or closing punctuation
/// closes: `"` becomes ” and `'` becomes ’ (an apostrophe in "it's").
pub proof fn lemma_quote_closes_after_a_word(before: Seq<char>)
    requires
        before.len() > 0,
        ({
            let c = before.last();
            ||| ('a' <= c && c <= 'z')
            ||| ('A' <= c && c <= 'Z')
            ||| ('0' <= c && c <= '9')
            ||| c == '.'
            ||| c == ','
            ||| c == '!'
            ||| c == '?'
            ||| c == ')'
            ||| c == ']'
        }),
    ensures
        substitute_spec(before, '"') == Some((0nat, seq!['\u{201D}'])),
        substitute_spec(before, '\'') == Some((0nat, seq!['\u{2019}'])),
{
}

} // verus!
