//! Markdown as a stream of events, held as plain values. `pulldown-cmark`
//! parses; each event comes back as its shape, the tag it opens or closes,
//! and the one datum the consumers read (a heading level, a list's first
//! number, or a piece of text). The renderers in this crate are folds over
//! this stream.

use vstd::prelude::*;
use pulldown_cmark::{CodeBlockKind, Event, Options, Parser, Tag, TagEnd};

verus! {

#[derive(Debug, Clone, Copy, PartialEq, Eq, Structural)]
pub enum EvShape {
    Start,
    End,
    Text,
    Code,
    SoftBreak,
    HardBreak,
    Rule,
    Other,
}

/// The tag a `Start` or `End` event opens or closes.
#[derive(Debug, Clone, Copy, PartialEq, Eq, Structural)]
pub enum TagKind {
    Paragraph,
    Heading,
    BlockQuote,
    CodeBlock,
    List,
    Item,
    Emphasis,
    Strong,
    Link,
    Other,
}

/// The table construct a `Start` or `End` event opens or closes, if any.
#[derive(Debug, Clone, Copy, PartialEq, Eq, Structural)]
pub enum TableTag {
    NotTable,
    Table,
    Head,
    Row,
    Cell,
}

/// The datum an event carries: a heading's level (opening and closing), a
/// list's first number (`None` for a bulleted list), or text — of a text or
/// code span, a fenced block's info string, or a link's destination.
#[derive(Debug, Clone)]
pub enum EvData {
    Nothing,
    Level(u8),
    ListStart(Option<u64>),
    Text(String),
}

pub enum EvDataV {
    Nothing,
    Level(u8),
    ListStart(Option<u64>),
    Text(Seq<char>),
}

impl View for EvData {
    type V = EvDataV;

    open spec fn view(&self) -> EvDataV {
        match self {
            EvData::Nothing => EvDataV::Nothing,
            EvData::Level(l) => EvDataV::Level(*l),
            EvData::ListStart(s) => EvDataV::ListStart(*s),
            EvData::Text(t) => EvDataV::Text(t@),
        }
    }
}

#[derive(Debug, Clone)]
pub struct MdEvent {
    pub shape: EvShape,
    pub tag: TagKind,
    pub table: TableTag,
    pub data: EvData,
    /// The byte offset in the source where the event's text starts.
    pub offset: usize,
}

pub struct MdEventV {
    pub shape: EvShape,
    pub tag: TagKind,
    pub table: TableTag,
    pub data: EvDataV,
    pub offset: nat,
}

impl View for MdEvent {
    type V = MdEventV;

    open spec fn view(&self) -> MdEventV {
        MdEventV { shape: self.shape, tag: self.tag, table: self.table, data: self.data@, offset: self.offset as nat }
    }
}

/// A list start of at most nine digits (or no list start at all).
pub open spec fn small_start(d: EvDataV) -> bool {
    match d {
        EvDataV::ListStart(Some(n)) => n < 1_000_000_000,
        _ => true,
    }
}

/// The text an event carries (empty when it carries none).
pub open spec fn text_of(d: EvDataV) -> Seq<char> {
    match d {
        EvDataV::Text(t) => t,
        _ => Seq::empty(),
    }
}

/// The shapes of the events `pulldown-cmark` yields for `markdown`.
pub uninterp spec fn md_shapes(markdown: Seq<char>, tables: bool, strikethrough: bool) -> Seq<EvShape>;

/// The tags of those events.
pub uninterp spec fn md_tags(markdown: Seq<char>, tables: bool, strikethrough: bool) -> Seq<TagKind>;

/// The table tags of those events.
pub uninterp spec fn md_table_tags(markdown: Seq<char>, tables: bool, strikethrough: bool) -> Seq<TableTag>;

/// Where in the source (in bytes) each of those events starts.
pub uninterp spec fn md_offsets(markdown: Seq<char>, tables: bool, strikethrough: bool) -> Seq<usize>;

/// The data of those events.
pub uninterp spec fn md_data(markdown: Seq<char>, tables: bool, strikethrough: bool) -> Seq<EvDataV>;

/// `Parser::new_ext(markdown, …)`, each event taken by its shape.
#[verifier::external_body]
fn parse_shapes(markdown: &str, tables: bool, strikethrough: bool) -> (r: Vec<EvShape>)
    ensures
        r@ == md_shapes(markdown@, tables, strikethrough),
{
    let mut o = Options::empty();
    o.set(Options::ENABLE_TABLES, tables);
    o.set(Options::ENABLE_STRIKETHROUGH, strikethrough);
    Parser::new_ext(markdown, o).map(|e| match e {
        Event::Start(_) => EvShape::Start,
        Event::End(_) => EvShape::End,
        Event::Text(_) => EvShape::Text,
        Event::Code(_) => EvShape::Code,
        Event::SoftBreak => EvShape::SoftBreak,
        Event::HardBreak => EvShape::HardBreak,
        Event::Rule => EvShape::Rule,
        _ => EvShape::Other,
    }).collect()
}

/// `Parser::new_ext(markdown, …)`, each event taken by the tag it opens or
/// closes.
#[verifier::external_body]
fn parse_tags(markdown: &str, tables: bool, strikethrough: bool) -> (r: Vec<TagKind>)
    ensures
        r@ == md_tags(markdown@, tables, strikethrough),
{
    let mut o = Options::empty();
    o.set(Options::ENABLE_TABLES, tables);
    o.set(Options::ENABLE_STRIKETHROUGH, strikethrough);
    Parser::new_ext(markdown, o).map(|e| match e {
        Event::Start(t) => t.to_end(),
        Event::End(t) => t,
        _ => TagEnd::HtmlBlock,
    }).map(|t| match t {
        TagEnd::Paragraph => TagKind::Paragraph, TagEnd::Heading(_) => TagKind::Heading,
        TagEnd::BlockQuote(_) => TagKind::BlockQuote, TagEnd::CodeBlock => TagKind::CodeBlock,
        TagEnd::List(_) => TagKind::List, TagEnd::Item => TagKind::Item,
        TagEnd::Emphasis => TagKind::Emphasis, TagEnd::Strong => TagKind::Strong,
        TagEnd::Link => TagKind::Link, _ => TagKind::Other,
    }).collect()
}

/// `Parser::new_ext(markdown, …)`, each event taken by the table construct
/// it opens or closes.
#[verifier::external_body]
fn parse_table_tags(markdown: &str, tables: bool, strikethrough: bool) -> (r: Vec<TableTag>)
    ensures
        r@ == md_table_tags(markdown@, tables, strikethrough),
{
    let mut o = Options::empty();
    o.set(Options::ENABLE_TABLES, tables);
    o.set(Options::ENABLE_STRIKETHROUGH, strikethrough);
    Parser::new_ext(markdown, o).map(|e| match e {
        Event::Start(Tag::Table(_)) | Event::End(TagEnd::Table) => TableTag::Table,
        Event::Start(Tag::TableHead) | Event::End(TagEnd::TableHead) => TableTag::Head,
        Event::Start(Tag::TableRow) | Event::End(TagEnd::TableRow) => TableTag::Row,
        Event::Start(Tag::TableCell) | Event::End(TagEnd::TableCell) => TableTag::Cell,
        _ => TableTag::NotTable,
    }).collect()
}

/// `Parser::new_ext(markdown, …).into_offset_iter()`, each event taken by
/// where its source range starts.
#[verifier::external_body]
fn parse_offsets(markdown: &str, tables: bool, strikethrough: bool) -> (r: Vec<usize>)
    ensures
        r@ == md_offsets(markdown@, tables, strikethrough),
{
    let mut o = Options::empty();
    o.set(Options::ENABLE_TABLES, tables);
    o.set(Options::ENABLE_STRIKETHROUGH, strikethrough);
    Parser::new_ext(markdown, o).into_offset_iter().map(|(_, range)| range.start).collect()
}

/// `Parser::new_ext(markdown, …)`, each event taken by its datum. An
/// ordered list's first number has at most nine digits (CommonMark's limit,
/// which the parser applies).
#[verifier::external_body]
fn parse_data(markdown: &str, tables: bool, strikethrough: bool) -> (r: Vec<EvData>)
    ensures
        r@.map_values(|d: EvData| d@) == md_data(markdown@, tables, strikethrough),
        forall|i: int| 0 <= i < r@.len() ==> small_start((#[trigger] r@[i])@),
{
    let mut o = Options::empty();
    o.set(Options::ENABLE_TABLES, tables);
    o.set(Options::ENABLE_STRIKETHROUGH, strikethrough);
    Parser::new_ext(markdown, o).map(|e| match e {
        Event::Start(Tag::Heading { level, .. }) | Event::End(TagEnd::Heading(level)) => EvData::Level(level as u8),
        Event::Start(Tag::List(start)) => EvData::ListStart(start),
        Event::Start(Tag::CodeBlock(CodeBlockKind::Fenced(lang))) => EvData::Text(lang.to_string()),
        Event::Start(Tag::Link { dest_url, .. }) => EvData::Text(dest_url.to_string()),
        Event::Text(s) | Event::Code(s) => EvData::Text(s.to_string()),
        _ => EvData::Nothing,
    }).collect()
}

/// The events of `markdown`, shape, tag and datum side by side.
pub open spec fn md_events(markdown: Seq<char>, tables: bool, strikethrough: bool) -> Seq<MdEventV> {
    let s = md_shapes(markdown, tables, strikethrough);
    let t = md_tags(markdown, tables, strikethrough);
    let b = md_table_tags(markdown, tables, strikethrough);
    let d = md_data(markdown, tables, strikethrough);
    let o = md_offsets(markdown, tables, strikethrough);
    let n = min_len(s.len(), min_len(t.len(), min_len(b.len(), min_len(d.len(), o.len()))));
    Seq::new(n, |i: int| MdEventV { shape: s[i], tag: t[i], table: b[i], data: d[i], offset: o[i] as nat })
}

pub open spec fn min_len(a: nat, b: nat) -> nat {
    if a <= b {
        a
    } else {
        b
    }
}

pub open spec fn event_views(v: Seq<MdEvent>) -> Seq<MdEventV> {
    v.map_values(|e: MdEvent| e@)
}

/// No ordered list in `evs` starts beyond nine digits.
pub open spec fn small_list_starts(evs: Seq<MdEventV>) -> bool {
    forall|i: int| 0 <= i < evs.len() ==> small_start((#[trigger] evs[i]).data)
}

/// Parse `markdown` into events (tables and strikethrough as given).
pub fn markdown_events(markdown: &str, tables: bool, strikethrough: bool) -> (r: Vec<MdEvent>)
    ensures
        event_views(r@) == md_events(markdown@, tables, strikethrough),
        small_list_starts(event_views(r@)),
{
    let shapes = parse_shapes(markdown, tables, strikethrough);
    let tags = parse_tags(markdown, tables, strikethrough);
    let tabs = parse_table_tags(markdown, tables, strikethrough);
    let mut data = parse_data(markdown, tables, strikethrough);
    let offsets = parse_offsets(markdown, tables, strikethrough);
    let ghost dv = data@.map_values(|d: EvData| d@);
    let ghost d0 = data@;
    let mut n = shapes.len();
    if tags.len() < n {
        n = tags.len();
    }
    if tabs.len() < n {
        n = tabs.len();
    }
    if data.len() < n {
        n = data.len();
    }
    if offsets.len() < n {
        n = offsets.len();
    }
    let mut out: Vec<MdEvent> = Vec::new();
    let mut i: usize = 0;
    let mut rest: Vec<EvData> = Vec::new();
    std::mem::swap(&mut rest, &mut data);
    while i < n
        invariant
            i <= n <= shapes@.len(),
            n <= tags@.len(),
            n <= tabs@.len(),
            n <= d0.len(),
            n <= offsets@.len(),
            rest@.len() == d0.len() - i,
            forall|k: int| 0 <= k < rest@.len() ==> #[trigger] rest@[k] == d0[i + k],
            out@.len() == i,
            forall|k: int|
                0 <= k < i ==> (#[trigger] out@[k])@ == (MdEventV {
                    shape: shapes@[k],
                    tag: tags@[k],
                    table: tabs@[k],
                    data: d0[k]@,
                    offset: offsets@[k] as nat,
                }),
            forall|k: int| 0 <= k < d0.len() ==> small_start((#[trigger] d0[k])@),
        decreases n - i,
    {
        let d = rest.remove(0);
        assert(d == d0[i as int]);
        out.push(MdEvent { shape: shapes[i], tag: tags[i], table: tabs[i], data: d, offset: offsets[i] });
        i = i + 1;
    }
    proof {
        assert(dv.len() == d0.len());
        let m = md_events(markdown@, tables, strikethrough);
        assert(m.len() == n);
        assert forall|k: int| 0 <= k < n implies #[trigger] event_views(out@)[k] == m[k] by {
            assert(dv[k] == d0[k]@);
        }
        assert(event_views(out@) =~= m);
    }
    out
}

} // verus!
