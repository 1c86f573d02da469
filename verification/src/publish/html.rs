//! Markdown → HTML, shared by every HTML-shaped target: the standalone HTML
//! export and the Substack rich paste. One renderer, so they agree.

use vstd::prelude::*;
use std::path::PathBuf;
use base64::Engine;
use pulldown_cmark::{html, Options, Parser};
use crate::text::{chars_of, string_of, append_chars};
use crate::paths::{joined, join};
use crate::publish::{Doc, Target, title_of};
use crate::publish::hugo::{slug, slug_of, untitled};

verus! {

/// The HTML `pulldown_cmark` renders for `markdown`, with the table and
/// strikethrough extensions as given.
pub uninterp spec fn commonmark_html(markdown: Seq<char>, tables: bool, strikethrough: bool) -> Seq<char>;

/// The standard (padded) base64 text of `bytes`.
pub uninterp spec fn base64_of(bytes: Seq<u8>) -> Seq<char>;

/// `pulldown_cmark::html::push_html` over `Parser::new_ext(markdown, …)`.
#[verifier::external_body]
fn render_commonmark(markdown: &str, tables: bool, strikethrough: bool) -> (r: String)
    ensures
        r@ == commonmark_html(markdown@, tables, strikethrough),
{
    let mut options = Options::empty();
    options.set(Options::ENABLE_TABLES, tables);
    options.set(Options::ENABLE_STRIKETHROUGH, strikethrough);
    let mut out = String::new();
    html::push_html(&mut out, Parser::new_ext(markdown, options));
    out
}

/// `base64::engine::general_purpose::STANDARD.encode`.
#[verifier::external_body]
fn base64_standard(bytes: &[u8]) -> (r: String)
    ensures
        r@ == base64_of(bytes@),
{
    base64::engine::general_purpose::STANDARD.encode(bytes)
}

/// The document body as an HTML fragment (no `<html>`/`<head>`), tables and
/// strikethrough enabled — the same extensions the preview renders.
pub fn body_html(markdown: &str) -> (r: String)
    ensures
        r@ == commonmark_html(markdown@, true, true),
{
    render_commonmark(markdown, true, true)
}

/// The bundled faces, passed in by the caller (which owns the font bytes),
/// so an export is self-contained without this crate vendoring fonts.
pub struct Fonts<'a> {
    pub newsreader_regular: &'a [u8],
    pub newsreader_italic: &'a [u8],
    pub newsreader_semibold: &'a [u8],
    pub mono_regular: &'a [u8],
}

/// `&`, `<` and `>` as entities.
pub open spec fn escape_char(c: char) -> Seq<char> {
    if c == '&' {
        seq!['&', 'a', 'm', 'p', ';']
    } else if c == '<' {
        seq!['&', 'l', 't', ';']
    } else if c == '>' {
        seq!['&', 'g', 't', ';']
    } else {
        seq![c]
    }
}

/// `text` with `&`, `<` and `>` escaped.
pub open spec fn escape_spec(text: Seq<char>) -> Seq<char>
    decreases text.len(),
{
    if text.len() == 0 {
        Seq::empty()
    } else {
        escape_spec(text.drop_last()) + escape_char(text.last())
    }
}

pub fn escape(text: &str) -> (r: String)
    ensures
        r@ == escape_spec(text@),
{
    let cs = chars_of(text);
    let mut out: Vec<char> = Vec::new();
    let mut i: usize = 0;
    assert(cs@.take(0) =~= Seq::<char>::empty());
    while i < cs.len()
        invariant
            i <= cs@.len(),
            cs@ == text@,
            out@ == escape_spec(cs@.take(i as int)),
        decreases cs@.len() - i,
    {
        let c = cs[i];
        assert(cs@.take(i + 1).drop_last() =~= cs@.take(i as int));
        assert(cs@.take(i + 1).last() == c);
        let ghost before = out@;
        if c == '&' {
            out.push('&');
            out.push('a');
            out.push('m');
            out.push('p');
            out.push(';');
        } else if c == '<' {
            out.push('&');
            out.push('l');
            out.push('t');
            out.push(';');
        } else if c == '>' {
            out.push('&');
            out.push('g');
            out.push('t');
            out.push(';');
        } else {
            out.push(c);
        }
        assert(out@ =~= before + escape_char(c));
        i = i + 1;
    }
    assert(cs@.take(cs@.len() as int) =~= cs@);
    string_of(out.as_slice())
}

pub const PAGE_OPEN: &'static str = "<!doctype html>\n<html lang=\"en\">\n<head>\n<meta charset=\"utf-8\">\n<meta name=\"viewport\" content=\"width=device-width, initial-scale=1\">\n<title>";

pub const PAGE_AFTER_TITLE: &'static str = "</title>\n<style>";

pub const PAGE_AFTER_STYLE: &'static str = "</style>\n</head>\n<body>\n<main class=\"page\">\n";

pub const PAGE_CLOSE: &'static str = "</main>\n</body>\n</html>\n";

pub const FACE_FAMILY: &'static str = "@font-face{font-family:'";

pub const FACE_WEIGHT: &'static str = "';font-weight:";

pub const FACE_STYLE: &'static str = ";font-style:";

pub const FACE_SRC: &'static str = ";src:url(data:font/ttf;base64,";

pub const FACE_CLOSE: &'static str = ") format('truetype');}";

/// Warm paper / ink echoing the app's light theme; a single reading measure.
pub const PAGE_CSS: &'static str = ":root{color-scheme:light;}body{margin:0;background:#faf8f4;color:#1c1b19;}.page{max-width:38rem;margin:0 auto;padding:4rem 1.5rem 6rem;font-family:'Newsreader',Georgia,serif;font-size:1.19rem;line-height:1.62;}h1,h2,h3,h4{font-weight:600;line-height:1.25;margin:2.2rem 0 .6rem;}h1{font-size:1.9rem;}h2{font-size:1.5rem;}h3{font-size:1.25rem;}p{margin:0 0 1.1rem;}a{color:#4e6e8e;}blockquote{margin:1.1rem 0;padding-left:1rem;border-left:3px solid #e5e0d8;color:#57534e;}code,pre{font-family:'iA Writer Mono',ui-monospace,monospace;font-size:.9em;}pre{background:#f3efe8;padding:1rem;border-radius:4px;overflow-x:auto;}pre code{font-size:.85rem;}img{max-width:100%;height:auto;}table{border-collapse:collapse;width:100%;margin:1.1rem 0;}th,td{border-bottom:1px solid #e5e0d8;padding:.4rem .6rem;text-align:left;}hr{border:none;border-top:1px solid #e5e0d8;margin:2rem 0;}";

/// One `@font-face` rule with the face's bytes inlined as base64.
pub open spec fn face_spec(family: Seq<char>, weight: Seq<char>, style: Seq<char>, bytes: Seq<u8>) -> Seq<char> {
    FACE_FAMILY@ + family + FACE_WEIGHT@ + weight + FACE_STYLE@ + style + FACE_SRC@ + base64_of(bytes)
        + FACE_CLOSE@
}

pub open spec fn stylesheet_spec(fonts: Fonts) -> Seq<char> {
    face_spec("Newsreader"@, "400"@, "normal"@, fonts.newsreader_regular@) + face_spec(
        "Newsreader"@,
        "400"@,
        "italic"@,
        fonts.newsreader_italic@,
    ) + face_spec("Newsreader"@, "600"@, "normal"@, fonts.newsreader_semibold@) + face_spec(
        "iA Writer Mono"@,
        "400"@,
        "normal"@,
        fonts.mono_regular@,
    ) + PAGE_CSS@
}

/// The complete page: escaped title, inlined stylesheet, rendered body.
pub open spec fn standalone_spec(title: Seq<char>, markdown: Seq<char>, fonts: Fonts) -> Seq<char> {
    PAGE_OPEN@ + escape_spec(title) + PAGE_AFTER_TITLE@ + stylesheet_spec(fonts) + PAGE_AFTER_STYLE@
        + commonmark_html(markdown, true, true) + PAGE_CLOSE@
}

fn push_str(out: &mut Vec<char>, s: &str)
    ensures
        final(out)@ == old(out)@ + s@,
{
    let v = chars_of(s);
    append_chars(out, &v);
}

fn push_face(out: &mut Vec<char>, family: &str, weight: &str, style: &str, bytes: &[u8])
    ensures
        final(out)@ == old(out)@ + face_spec(family@, weight@, style@, bytes@),
{
    push_str(out, FACE_FAMILY);
    push_str(out, family);
    push_str(out, FACE_WEIGHT);
    push_str(out, weight);
    push_str(out, FACE_STYLE);
    push_str(out, style);
    push_str(out, FACE_SRC);
    let data = base64_standard(bytes);
    push_str(out, data.as_str());
    push_str(out, FACE_CLOSE);
    assert(out@ =~= old(out)@ + face_spec(family@, weight@, style@, bytes@));
}

/// The stylesheet: the four bundled faces, then the page rules.
pub fn stylesheet(fonts: &Fonts) -> (r: String)
    ensures
        r@ == stylesheet_spec(*fonts),
{
    let mut out: Vec<char> = Vec::new();
    push_face(&mut out, "Newsreader", "400", "normal", fonts.newsreader_regular);
    push_face(&mut out, "Newsreader", "400", "italic", fonts.newsreader_italic);
    push_face(&mut out, "Newsreader", "600", "normal", fonts.newsreader_semibold);
    push_face(&mut out, "iA Writer Mono", "400", "normal", fonts.mono_regular);
    push_str(&mut out, PAGE_CSS);
    assert(out@ =~= stylesheet_spec(*fonts));
    string_of(out.as_slice())
}

/// A complete, self-contained HTML document: the body plus an inlined
/// stylesheet with the bundled faces base64-embedded. Opens anywhere
/// offline; Print → Save as PDF for a PDF.
pub fn standalone_html(title: &str, markdown: &str, fonts: &Fonts) -> (r: String)
    ensures
        r@ == standalone_spec(title@, markdown@, *fonts),
{
    let mut out: Vec<char> = Vec::new();
    push_str(&mut out, PAGE_OPEN);
    let t = escape(title);
    push_str(&mut out, t.as_str());
    push_str(&mut out, PAGE_AFTER_TITLE);
    let css = stylesheet(fonts);
    push_str(&mut out, css.as_str());
    push_str(&mut out, PAGE_AFTER_STYLE);
    let body = body_html(markdown);
    push_str(&mut out, body.as_str());
    push_str(&mut out, PAGE_CLOSE);
    assert(out@ =~= standalone_spec(title@, markdown@, *fonts));
    string_of(out.as_slice())
}

/// Write a self-contained `<slug>.html` into a configured export directory.
pub struct HtmlTarget<'a> {
    pub out_dir: PathBuf,
    pub fonts: Fonts<'a>,
}

/// The title a file target names its output by.
pub open spec fn title_or_untitled(d: Doc) -> Seq<char> {
    match title_of(d.markdown@, d.source_path) {
        Some(t) => t,
        None => untitled(),
    }
}

/// The document's title, `"untitled"` when it has none.
pub fn doc_title_or_untitled(doc: &Doc) -> (r: String)
    ensures
        r@ == title_or_untitled(*doc),
{
    match doc.title() {
        Some(t) => t,
        None => {
            let u = vec!['u', 'n', 't', 'i', 't', 'l', 'e', 'd'];
            assert(u@ =~= untitled());
            string_of(u.as_slice())
        },
    }
}

impl<'a> HtmlTarget<'a> {
    pub fn new(out_dir: PathBuf, fonts: Fonts<'a>) -> (t: Self)
        ensures
            t.out_dir == out_dir,
            t.fonts == fonts,
    {
        HtmlTarget { out_dir, fonts }
    }

    /// Where publishing `doc` writes and what: `<out_dir>/<slug>.html`
    /// holding the standalone page. Writing it is the caller's part.
    pub fn output(&self, doc: &Doc) -> (r: (PathBuf, String))
        ensures
            r.0 == joined(self.out_dir, slug_of(title_or_untitled(*doc)) + seq!['.', 'h', 't', 'm', 'l']),
            r.1@ == standalone_spec(title_or_untitled(*doc), doc.markdown@, self.fonts),
    {
        let title = doc_title_or_untitled(doc);
        let s = slug(title.as_str());
        let mut name = chars_of(s.as_str());
        name.push('.');
        name.push('h');
        name.push('t');
        name.push('m');
        name.push('l');
        assert(name@ =~= slug_of(title@) + seq!['.', 'h', 't', 'm', 'l']);
        let file = string_of(name.as_slice());
        let path = join(&self.out_dir, file.as_str());
        let contents = standalone_html(title.as_str(), doc.markdown, &self.fonts);
        (path, contents)
    }
}

impl<'a> Target for HtmlTarget<'a> {
    fn id(&self) -> (r: &'static str)
        ensures
            r@ == "html"@,
    {
        "html"
    }

    fn label(&self) -> (r: String)
        ensures
            r@ == "HTML"@,
    {
        let v = chars_of("HTML");
        string_of(v.as_slice())
    }
}

/// Escaped text holds no `<` or `>`: nothing in it can open or close a tag.
pub proof fn lemma_escape_has_no_markup(text: Seq<char>)
    ensures
        forall|k: int| 0 <= k < escape_spec(text).len() ==> #[trigger] escape_spec(text)[k] != '<' && escape_spec(text)[k]
            != '>',
        escape_spec(text).len() >= text.len(),
    decreases text.len(),
{
    if text.len() > 0 {
        let init = escape_spec(text.drop_last());
        let tail = escape_char(text.last());
        lemma_escape_has_no_markup(text.drop_last());
        assert forall|k: int| 0 <= k < escape_spec(text).len() implies #[trigger] escape_spec(text)[k] != '<'
            && escape_spec(text)[k] != '>' by {
            if k < init.len() {
                assert(escape_spec(text)[k] == init[k]);
            } else {
                assert(escape_spec(text)[k] == tail[k - init.len()]);
            }
        }
    }
}

} // verus!
