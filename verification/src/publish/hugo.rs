//! The Hugo target's text work: a URL-safe slug for the file name, and the
//! body with the leading title heading lifted out (Hugo renders the title
//! from front matter). Writing the file, the date and the TOML front matter
//! are the front-end's part.

use vstd::prelude::*;
use crate::lines::{lines_of, trim, unlines, split_lines, trim_chars, views_of};
use crate::publish::{h1_rest, h1_line_rest, first_h1};
use crate::segment::{is_alnum, char_is_alphanumeric};
use crate::text::{chars_of, string_of, append_chars};

verus! {

/// What `char::to_lowercase` yields for `c`.
pub uninterp spec fn lower_of(c: char) -> Seq<char>;

/// `char::to_lowercase`, collected. Among ASCII chars the Unicode mapping
/// lowers `A`..`Z` to `a`..`z` and leaves every other char as it is.
#[verifier::external_body]
fn char_lowercase(c: char) -> (r: Vec<char>)
    ensures
        r@ == lower_of(c),
        ('A' <= c && c <= 'Z') ==> r@ == seq![((c as u32) + 32) as char],
        ((c as u32) < 128 && !('A' <= c && c <= 'Z')) ==> r@ == seq![c],
{
    c.to_lowercase().collect()
}

/// The slug built so far from `s` and whether a dash is pending: letters and
/// digits are kept (lowercased), any other run becomes one dash between
/// them.
pub open spec fn slug_run(s: Seq<char>) -> (Seq<char>, bool)
    decreases s.len(),
{
    if s.len() == 0 {
        (Seq::empty(), false)
    } else {
        let (out, pending) = slug_run(s.drop_last());
        let c = s.last();
        if is_alnum(c) {
            ((if pending { out.push('-') } else { out }) + lower_of(c), false)
        } else if out.len() > 0 {
            (out, true)
        } else {
            (out, pending)
        }
    }
}

pub open spec fn untitled() -> Seq<char> {
    seq!['u', 'n', 't', 'i', 't', 'l', 'e', 'd']
}

/// The slug of `title`; `"untitled"` when nothing is left.
pub open spec fn slug_of(title: Seq<char>) -> Seq<char> {
    let out = slug_run(title).0;
    if out.len() == 0 {
        untitled()
    } else {
        out
    }
}

/// A char a slug of an ASCII title is made of.
pub open spec fn slug_char(c: char) -> bool {
    ('a' <= c && c <= 'z') || ('0' <= c && c <= '9') || c == '-'
}

/// Lowercase letters, digits and single dashes between them.
pub open spec fn slug_shaped(s: Seq<char>) -> bool {
    &&& s.len() > 0
    &&& forall|i: int| 0 <= i < s.len() ==> slug_char(#[trigger] s[i])
    &&& s[0] != '-'
    &&& s.last() != '-'
    &&& forall|i: int| 1 <= i < s.len() ==> !(s[i - 1] == '-' && #[trigger] s[i] == '-')
}

/// Every char of `s` is ASCII.
pub open spec fn ascii_text(s: Seq<char>) -> bool {
    forall|i: int| 0 <= i < s.len() ==> (#[trigger] s[i] as u32) < 128
}

/// A URL-safe slug from a title: lowercase, alphanumerics kept, every other
/// run collapsed to a single `-`, no leading/trailing dash. Unicode letters
/// survive; empty input yields `"untitled"`.
pub fn slug(title: &str) -> (r: String)
    ensures
        r@ == slug_of(title@),
        ascii_text(title@) ==> slug_shaped(r@),
{
    let cs = chars_of(title);
    let mut out: Vec<char> = Vec::new();
    let mut pending = false;
    let mut i: usize = 0;
    assert(cs@.take(0) =~= Seq::<char>::empty());
    while i < cs.len()
        invariant
            i <= cs@.len(),
            cs@ == title@,
            (out@, pending) == slug_run(cs@.take(i as int)),
            pending ==> out@.len() > 0,
            ascii_text(title@) && out@.len() > 0 ==> slug_shaped(out@),
        decreases cs@.len() - i,
    {
        let c = cs[i];
        assert(cs@.take(i + 1).drop_last() =~= cs@.take(i as int));
        assert(cs@.take(i + 1).last() == c);
        if char_is_alphanumeric(c) {
            let ghost before = out@;
            if pending {
                out.push('-');
                pending = false;
            }
            let ghost mid = out@;
            let low = char_lowercase(c);
            append_chars(&mut out, &low);
            proof {
                if ascii_text(title@) {
                    assert(cs@[i as int] == c);
                    let l = if 'A' <= c && c <= 'Z' { ((c as u32) + 32) as char } else { c };
                    assert(low@ == seq![l]);
                    assert(slug_char(l) && l != '-');
                    assert(out@ == mid.push(l));
                    assert forall|k: int| 0 <= k < out@.len() implies slug_char(#[trigger] out@[k]) by {
                        if k < before.len() {
                            assert(out@[k] == before[k]);
                        }
                    }
                    assert forall|k: int| 1 <= k < out@.len() implies !(out@[k - 1] == '-' && #[trigger] out@[k]
                        == '-') by {
                        if k < before.len() {
                            assert(out@[k] == before[k] && out@[k - 1] == before[k - 1]);
                        }
                    }
                    if before.len() > 0 {
                        assert(out@[0] == before[0]);
                    }
                }
            }
        } else if out.len() > 0 {
            pending = true;
        }
        i = i + 1;
    }
    assert(cs@.take(cs@.len() as int) =~= cs@);
    if out.len() == 0 {
        let u = vec!['u', 'n', 't', 'i', 't', 'l', 'e', 'd'];
        assert(u@ =~= untitled());
        assert(slug_shaped(u@));
        string_of(u.as_slice())
    } else {
        string_of(out.as_slice())
    }
}

/// Index of the first line of `ls` from `i` on that is not blank.
pub open spec fn first_nonblank(ls: Seq<Seq<char>>, i: int) -> int
    decreases ls.len() - i,
{
    if i < 0 || i >= ls.len() {
        ls.len() as int
    } else if trim(ls[i]).len() > 0 {
        i
    } else {
        first_nonblank(ls, i + 1)
    }
}

/// `markdown` without its leading `# title` heading: only when the first
/// non-blank line is an H1 whose text is `title`, together with one blank
/// line after it; the rest is re-joined, one `\n` after each line.
pub open spec fn strip_title_spec(markdown: Seq<char>, title: Seq<char>) -> Seq<char> {
    let ls = lines_of(markdown);
    let k = first_nonblank(ls, 0);
    if k < ls.len() && h1_rest(ls[k]) == Some(title) {
        let after = ls.skip(k + 1);
        let rest = if after.len() > 0 && trim(after[0]).len() == 0 {
            after.skip(1)
        } else {
            after
        };
        unlines(rest)
    } else {
        markdown
    }
}

/// Each of `ls[from..]` followed by `\n`, appended to `out`.
fn append_unlines(out: &mut Vec<char>, ls: &Vec<Vec<char>>, from: usize)
    requires
        from <= ls@.len(),
    ensures
        final(out)@ == old(out)@ + unlines(views_of(ls@).skip(from as int)),
{
    let ghost vs = views_of(ls@);
    let mut i: usize = from;
    assert(vs.skip(from as int).take(0) =~= Seq::<Seq<char>>::empty());
    while i < ls.len()
        invariant
            from <= i <= ls@.len(),
            vs == views_of(ls@),
            out@ == old(out)@ + unlines(vs.skip(from as int).take(i - from)),
        decreases ls@.len() - i,
    {
        let ghost tk = vs.skip(from as int).take(i + 1 - from);
        assert(tk.drop_last() =~= vs.skip(from as int).take(i - from));
        assert(tk.last() == ls@[i as int]@);
        append_chars(out, &ls[i]);
        out.push('\n');
        assert(out@ =~= old(out)@ + unlines(tk));
        i = i + 1;
    }
    assert(vs.skip(from as int).take(ls@.len() - from) =~= vs.skip(from as int));
}

/// Drop the body's opening `# title` when it is the very heading lifted
/// into front matter. Only a *leading* H1 (the first non-blank line) is
/// removed; an H1 deeper in the document is left alone.
pub fn strip_leading_title(markdown: &str, title: &str) -> (r: String)
    ensures
        r@ == strip_title_spec(markdown@, title@),
{
    let text = chars_of(markdown);
    let ls = split_lines(&text);
    let ghost lv = lines_of(markdown@);
    let n = ls.len();
    let mut k: usize = 0;
    while k < n && crate::lines::is_blank(&ls[k])
        invariant
            k <= n == ls@.len(),
            views_of(ls@) == lv,
            first_nonblank(lv, 0) == first_nonblank(lv, k as int),
        decreases n - k,
    {
        assert(lv[k as int] == ls@[k as int]@);
        k = k + 1;
    }
    proof {
        if k < n {
            assert(lv[k as int] == ls@[k as int]@);
        }
    }
    assert(first_nonblank(lv, 0) == k);
    if k >= n {
        return string_of(text.as_slice());
    }
    let tchars = chars_of(title);
    let is_ours = match h1_line_rest(&ls[k]) {
        Some(rest) => {
            crate::text::str_eq(string_of(rest.as_slice()).as_str(), string_of(tchars.as_slice()).as_str())
        },
        None => false,
    };
    assert(is_ours == (h1_rest(lv[k as int]) == Some(title@)));
    if !is_ours {
        return string_of(text.as_slice());
    }
    let mut from = k + 1;
    if from < n && crate::lines::is_blank(&ls[from]) {
        from = from + 1;
    }
    proof {
        let after = lv.skip(k + 1);
        if after.len() > 0 {
            assert(after[0] == ls@[k + 1]@);
        }
        if after.len() > 0 && trim(after[0]).len() == 0 {
            assert(after.skip(1) =~= lv.skip(from as int));
        } else {
            assert(after =~= lv.skip(from as int));
        }
    }
    let mut out: Vec<char> = Vec::new();
    append_unlines(&mut out, &ls, from);
    assert(out@ =~= Seq::<char>::empty() + unlines(lv.skip(from as int)));
    string_of(out.as_slice())
}

/// The name of the file a Hugo publish writes: `<slug>.md`.
pub fn hugo_file_name(title: &str) -> (r: String)
    ensures
        r@ == slug_of(title@) + seq!['.', 'm', 'd'],
{
    let s = slug(title);
    let mut v = chars_of(s.as_str());
    v.push('.');
    v.push('m');
    v.push('d');
    string_of(v.as_slice())
}

/// A Hugo file's contents: the front matter, a newline, then the body with
/// its leading title heading lifted out.
pub fn hugo_contents(front: &str, markdown: &str, title: &str) -> (r: String)
    ensures
        r@ == front@ + seq!['\n'] + strip_title_spec(markdown@, title@),
{
    let mut v = chars_of(front);
    v.push('\n');
    let body = strip_leading_title(markdown, title);
    let b = chars_of(body.as_str());
    append_chars(&mut v, &b);
    string_of(v.as_slice())
}

/// With no non-empty H1 among the lines, every line is no H1 or an empty
/// one.
proof fn lemma_no_h1(ls: Seq<Seq<char>>)
    requires
        first_h1(ls) is None,
    ensures
        forall|k: int| 0 <= k < ls.len() ==> ((#[trigger] h1_rest(ls[k])) matches Some(t) ==> t.len() == 0),
    decreases ls.len(),
{
    if ls.len() > 0 {
        lemma_no_h1(ls.drop_first());
        assert forall|k: int| 0 <= k < ls.len() implies ((#[trigger] h1_rest(ls[k])) matches Some(t) ==> t.len()
            == 0) by {
            if k > 0 {
                assert(ls[k] == ls.drop_first()[k - 1]);
            }
        }
    }
}

/// The first non-blank line from `i` on is at or after `i`.
proof fn lemma_first_nonblank_from(ls: Seq<Seq<char>>, i: int)
    requires
        0 <= i <= ls.len(),
    ensures
        i <= first_nonblank(ls, i),
    decreases ls.len() - i,
{
    if i < ls.len() && trim(ls[i]).len() == 0 {
        lemma_first_nonblank_from(ls, i + 1);
    }
}

/// A document without an H1 takes its title from the file name, and that
/// title never matches a heading, so publishing drops nothing from the body.
pub proof fn lemma_file_title_strips_nothing(markdown: Seq<char>, title: Seq<char>)
    requires
        first_h1(lines_of(markdown)) is None,
        title.len() > 0,
    ensures
        strip_title_spec(markdown, title) == markdown,
{
    let ls = lines_of(markdown);
    lemma_no_h1(ls);
    lemma_first_nonblank_from(ls, 0);
    let k = first_nonblank(ls, 0);
    if k < ls.len() {
        assert(h1_rest(ls[k]) matches Some(t) ==> t.len() == 0);
    }
}

} // verus!
