//! LinkedIn — format-and-copy. Posting is partner-gated, so the markdown is
//! flattened to the plain text LinkedIn's composer accepts, using the
//! Unicode sans-serif-bold letters people reach for (LinkedIn strips real
//! markup) and `•` bullets. The writer pastes it.

use vstd::prelude::*;
use crate::markdown::{EvShape, TagKind, MdEvent, MdEventV, md_events, event_views, text_of, markdown_events};
use crate::lines::{trim, trim_end, lines_of, split_lines, trim_end_chars, is_blank};
use crate::text::{string_of, chars_of, append_chars};
use crate::publish::{Doc, Outcome, Target, is_clipboard};

verus! {

/// `char::from_u32`: the char with that code point, when there is one.
#[verifier::external_body]
fn char_from_u32(u: u32) -> (r: Option<char>)
    ensures
        r is Some <==> (u <= 0xD7FF || (0xE000 <= u && u <= 0x10FFFF)),
        r matches Some(c) ==> c as u32 == u,
{
    char::from_u32(u)
}

/// ASCII letters and digits as their Mathematical Sans-Serif Bold cousins;
/// everything else (punctuation, accents, emoji) untouched.
pub open spec fn sans_bold_spec(c: char) -> char {
    if 'A' <= c && c <= 'Z' {
        (0x1D5D4 + (c as u32 - 'A' as u32)) as char
    } else if 'a' <= c && c <= 'z' {
        (0x1D5EE + (c as u32 - 'a' as u32)) as char
    } else if '0' <= c && c <= '9' {
        (0x1D7EC + (c as u32 - '0' as u32)) as char
    } else {
        c
    }
}

/// Map ASCII letters/digits to their Mathematical Sans-Serif Bold cousins,
/// leaving everything else untouched.
pub fn sans_bold(c: char) -> (r: char)
    ensures
        r == sans_bold_spec(c),
{
    let cp = c as u32;
    let mapped: u32 = if 'A' <= c && c <= 'Z' {
        0x1D5D4 + (cp - 'A' as u32)
    } else if 'a' <= c && c <= 'z' {
        0x1D5EE + (cp - 'a' as u32)
    } else if '0' <= c && c <= '9' {
        0x1D7EC + (cp - '0' as u32)
    } else {
        return c;
    };
    match char_from_u32(mapped) {
        Some(m) => {
            proof {
                vstd::utf8::char_u32_cast(m, mapped);
            }
            m
        },
        None => c,
    }
}

/// Where the flattening is: the text so far, how many bold constructs are
/// open, and the destination of an open link.
pub struct LState {
    pub out: Seq<char>,
    pub bold: nat,
    pub pending: Option<Seq<char>>,
}

pub open spec fn bold_text(t: Seq<char>) -> Seq<char> {
    t.map_values(|c: char| sans_bold_spec(c))
}

pub open spec fn dec_bold(n: nat) -> nat {
    if n > 0 {
        (n - 1) as nat
    } else {
        0
    }
}

/// The flattening's step on one event.
pub open spec fn lstep(s: LState, e: MdEventV) -> LState {
    match e.shape {
        EvShape::Start => match e.tag {
            TagKind::Heading | TagKind::Strong => LState { bold: s.bold + 1, ..s },
            TagKind::Item => LState { out: s.out + seq!['\u{2022}', ' '], ..s },
            TagKind::Link => LState { pending: Some(text_of(e.data)), ..s },
            _ => s,
        },
        EvShape::End => match e.tag {
            TagKind::Heading => LState { bold: dec_bold(s.bold), out: s.out + seq!['\n', '\n'], ..s },
            TagKind::Strong => LState { bold: dec_bold(s.bold), ..s },
            TagKind::Paragraph => LState { out: s.out + seq!['\n', '\n'], ..s },
            TagKind::Item => LState { out: s.out.push('\n'), ..s },
            TagKind::Link => match s.pending {
                Some(url) => LState { out: s.out + seq![' ', '('] + url + seq![')'], pending: None, ..s },
                None => s,
            },
            _ => s,
        },
        EvShape::Text | EvShape::Code => if s.bold > 0 {
            LState { out: s.out + bold_text(text_of(e.data)), ..s }
        } else {
            LState { out: s.out + text_of(e.data), ..s }
        },
        EvShape::SoftBreak => LState { out: s.out.push(' '), ..s },
        EvShape::HardBreak => LState { out: s.out.push('\n'), ..s },
        EvShape::Rule => LState { out: s.out + seq!['\u{2014}', '\n', '\n'], ..s },
        EvShape::Other => s,
    }
}

pub open spec fn lrun(evs: Seq<MdEventV>) -> LState
    decreases evs.len(),
{
    if evs.len() == 0 {
        LState { out: Seq::empty(), bold: 0, pending: None }
    } else {
        lstep(lrun(evs.drop_last()), evs.last())
    }
}

/// A soft line break between two runs of text reads as one space: after
/// any events `evs`, the flattening of text `a`, a soft break and text `b`
/// adds `a`, a space and `b` (each in bold inside a heading or strong span).
pub proof fn lemma_soft_break_reads_as_space(evs: Seq<MdEventV>, ta: MdEventV, br: MdEventV, tb: MdEventV)
    requires
        ta.shape == EvShape::Text,
        br.shape == EvShape::SoftBreak,
        tb.shape == EvShape::Text,
    ensures
        ({
            let before = lrun(evs);
            let after = lrun(evs + seq![ta, br, tb]);
            let (a, b) = if before.bold > 0 {
                (bold_text(text_of(ta.data)), bold_text(text_of(tb.data)))
            } else {
                (text_of(ta.data), text_of(tb.data))
            };
            &&& after.out == before.out + a + seq![' '] + b
            &&& after.bold == before.bold
        }),
{
    let e1 = evs.push(ta);
    let e2 = e1.push(br);
    let e3 = e2.push(tb);
    assert(evs + seq![ta, br, tb] =~= e3);
    assert(e3.drop_last() =~= e2);
    assert(e2.drop_last() =~= e1);
    assert(e1.drop_last() =~= evs);
    let before = lrun(evs);
    assert(e1.last() == ta && e2.last() == br && e3.last() == tb);
    let s1 = lstep(before, ta);
    assert(lrun(e1) == s1);
    let s2 = lstep(s1, br);
    assert(lrun(e2) == s2);
    assert(s2.bold == before.bold && s2.out == s1.out.push(' '));
    assert(lrun(e3) == lstep(s2, tb));
    if before.bold > 0 {
        assert(lrun(e3).out =~= before.out + bold_text(text_of(ta.data)) + seq![' '] + bold_text(text_of(tb.data)));
    } else {
        assert(lrun(e3).out =~= before.out + text_of(ta.data) + seq![' '] + text_of(tb.data));
    }
}

/// Lines re-joined with runs of blank lines collapsed to one empty line;
/// also the count of blank lines just seen.
pub open spec fn collapse(ls: Seq<Seq<char>>) -> (Seq<char>, nat)
    decreases ls.len(),
{
    if ls.len() == 0 {
        (Seq::empty(), 0)
    } else {
        let (r, b) = collapse(ls.drop_last());
        let l = ls.last();
        if trim(l).len() == 0 {
            (if b + 1 < 2 { r.push('\n') } else { r }, b + 1)
        } else {
            (r + l + seq!['\n'], 0)
        }
    }
}

/// What `to_linkedin` gives for a stream of events.
pub open spec fn linkedin_of(evs: Seq<MdEventV>) -> Seq<char> {
    trim_end(collapse(lines_of(trim_end(lrun(evs).out))).0)
}

fn data_text(d: &crate::markdown::EvData) -> (r: Vec<char>)
    ensures
        r@ == text_of(d@),
{
    match d {
        crate::markdown::EvData::Text(t) => chars_of(t.as_str()),
        _ => Vec::new(),
    }
}

/// Flatten a stream of markdown events to LinkedIn-ready plain text.
pub fn linkedin_from_events(events: &Vec<MdEvent>) -> (r: String)
    ensures
        r@ == linkedin_of(event_views(events@)),
{
    let ghost evs = event_views(events@);
    let mut out: Vec<char> = Vec::new();
    let mut bold: usize = 0;
    let mut pending: Option<Vec<char>> = None;
    let mut i: usize = 0;
    assert(evs.take(0) =~= Seq::<MdEventV>::empty());
    while i < events.len()
        invariant
            i <= events@.len(),
            evs == event_views(events@),
            bold <= i,
            (LState {
                out: out@,
                bold: bold as nat,
                pending: match pending {
                    Some(p) => Some(p@),
                    None => None,
                },
            }) == lrun(evs.take(i as int)),
        decreases events@.len() - i,
    {
        assert(evs.take(i + 1).drop_last() =~= evs.take(i as int));
        assert(evs.take(i + 1).last() == events@[i as int]@);
        let e = &events[i];
        let ghost before = out@;
        match e.shape {
            EvShape::Start => match e.tag {
                TagKind::Heading | TagKind::Strong => {
                    bold = bold + 1;
                },
                TagKind::Item => {
                    out.push('\u{2022}');
                    out.push(' ');
                    assert(out@ =~= before + seq!['\u{2022}', ' ']);
                },
                TagKind::Link => {
                    pending = Some(data_text(&e.data));
                },
                _ => {},
            },
            EvShape::End => match e.tag {
                TagKind::Heading => {
                    if bold > 0 {
                        bold = bold - 1;
                    }
                    out.push('\n');
                    out.push('\n');
                    assert(out@ =~= before + seq!['\n', '\n']);
                },
                TagKind::Strong => {
                    if bold > 0 {
                        bold = bold - 1;
                    }
                },
                TagKind::Paragraph => {
                    out.push('\n');
                    out.push('\n');
                    assert(out@ =~= before + seq!['\n', '\n']);
                },
                TagKind::Item => {
                    out.push('\n');
                },
                TagKind::Link => {
                    let mut taken: Option<Vec<char>> = None;
                    std::mem::swap(&mut taken, &mut pending);
                    match taken {
                        Some(url) => {
                            out.push(' ');
                            out.push('(');
                            append_chars(&mut out, &url);
                            out.push(')');
                            assert(out@ =~= before + seq![' ', '('] + url@ + seq![')']);
                        },
                        None => {},
                    }
                },
                _ => {},
            },
            EvShape::Text | EvShape::Code => {
                let t = data_text(&e.data);
                if bold > 0 {
                    let mut k: usize = 0;
                    while k < t.len()
                        invariant
                            k <= t@.len(),
                            out@ == before + bold_text(t@.take(k as int)),
                        decreases t@.len() - k,
                    {
                        let b = sans_bold(t[k]);
                        out.push(b);
                        assert(bold_text(t@.take(k + 1)) =~= bold_text(t@.take(k as int)).push(b));
                        k = k + 1;
                    }
                    assert(t@.take(t@.len() as int) =~= t@);
                } else {
                    append_chars(&mut out, &t);
                }
            },
            EvShape::SoftBreak => {
                out.push(' ');
            },
            EvShape::HardBreak => {
                out.push('\n');
            },
            EvShape::Rule => {
                out.push('\u{2014}');
                out.push('\n');
                out.push('\n');
                assert(out@ =~= before + seq!['\u{2014}', '\n', '\n']);
            },
            EvShape::Other => {},
        }
        i = i + 1;
    }
    assert(evs.take(events@.len() as int) =~= evs);
    let trimmed = trim_end_chars(&out);
    let ls = split_lines(&trimmed);
    let ghost lv = lines_of(trimmed@);
    let mut result: Vec<char> = Vec::new();
    let mut blanks: usize = 0;
    let mut j: usize = 0;
    assert(lv.take(0) =~= Seq::<Seq<char>>::empty());
    while j < ls.len()
        invariant
            j <= ls@.len(),
            crate::lines::views_of(ls@) == lv,
            blanks <= j,
            (result@, blanks as nat) == collapse(lv.take(j as int)),
        decreases ls@.len() - j,
    {
        assert(lv.take(j + 1).drop_last() =~= lv.take(j as int));
        assert(lv.take(j + 1).last() == ls@[j as int]@);
        if is_blank(&ls[j]) {
            blanks = blanks + 1;
            if blanks < 2 {
                result.push('\n');
            }
        } else {
            blanks = 0;
            let ghost before = result@;
            append_chars(&mut result, &ls[j]);
            result.push('\n');
            assert(result@ =~= before + ls@[j as int]@ + seq!['\n']);
        }
        j = j + 1;
    }
    assert(lv.take(ls@.len() as int) =~= lv);
    let fin = trim_end_chars(&result);
    string_of(fin.as_slice())
}

/// Flatten markdown to LinkedIn-ready plain text: headings and `**bold**`
/// become Unicode sans-serif bold, list items get `•`, links read as
/// `text (url)`, and everything else is stripped to its words.
pub fn to_linkedin(markdown: &str) -> (r: String)
    ensures
        r@ == linkedin_of(md_events(markdown@, false, true)),
{
    let events = markdown_events(markdown, false, true);
    linkedin_from_events(&events)
}

pub struct LinkedinTarget;

impl LinkedinTarget {
    /// What publishing `doc` hands the writer: the flattened text, for the
    /// clipboard.
    pub fn outcome(&self, doc: &Doc) -> (r: Outcome)
        ensures
            is_clipboard(
                r,
                "paste into a new LinkedIn post"@,
                None,
                linkedin_of(md_events(doc.markdown@, false, true)),
            ),
    {
        let hint = chars_of("paste into a new LinkedIn post");
        Outcome::Clipboard { hint: string_of(hint.as_slice()), html: None, text: to_linkedin(doc.markdown) }
    }
}

impl Target for LinkedinTarget {
    fn id(&self) -> (r: &'static str)
        ensures
            r@ == "linkedin"@,
    {
        "linkedin"
    }

    fn label(&self) -> (r: String)
        ensures
            r@ == "LinkedIn"@,
    {
        let v = chars_of("LinkedIn");
        string_of(v.as_slice())
    }
}

} // verus!
