//! Markdown → a simple block model a native reading view renders: headings
//! with their level, paragraphs and quotes as runs of emphasised spans,
//! list items with their marker, code blocks with their language, rules.
//! Parsing is `pulldown-cmark`'s; presentation is the front-end's.

use vstd::prelude::*;
use crate::markdown::{EvShape, TagKind, EvDataV, MdEvent, MdEventV, md_events, event_views, text_of, markdown_events, small_start, small_list_starts};
use crate::lines::{trim_end, trim_end_chars};
use crate::text::{dec_of, decimal, string_of, chars_of, append_chars};

verus! {

/// An inline run with its emphasis. `code` spans render monospaced.
#[derive(Clone, Debug, PartialEq, Eq)]
pub struct PreviewSpan {
    pub text: String,
    pub bold: bool,
    pub italic: bool,
    pub code: bool,
}

pub struct SpanV {
    pub text: Seq<char>,
    pub bold: bool,
    pub italic: bool,
    pub code: bool,
}

impl View for PreviewSpan {
    type V = SpanV;

    open spec fn view(&self) -> SpanV {
        SpanV { text: self.text@, bold: self.bold, italic: self.italic, code: self.code }
    }
}

/// A rendered block. Headings carry a level (1–6); list items carry their
/// marker; code blocks carry raw text + language.
#[derive(Debug, PartialEq, Eq)]
pub enum PreviewBlock {
    Heading { level: u8, spans: Vec<PreviewSpan> },
    Paragraph { spans: Vec<PreviewSpan> },
    ListItem { ordered: bool, marker: String, spans: Vec<PreviewSpan> },
    Quote { spans: Vec<PreviewSpan> },
    Code { language: String, text: String },
    Rule,
}

pub enum BlockV {
    Heading { level: u8, spans: Seq<SpanV> },
    Paragraph { spans: Seq<SpanV> },
    ListItem { ordered: bool, marker: Seq<char>, spans: Seq<SpanV> },
    Quote { spans: Seq<SpanV> },
    Code { language: Seq<char>, text: Seq<char> },
    Rule,
}

pub open spec fn span_views(v: Seq<PreviewSpan>) -> Seq<SpanV> {
    v.map_values(|s: PreviewSpan| s@)
}

impl View for PreviewBlock {
    type V = BlockV;

    open spec fn view(&self) -> BlockV {
        match self {
            PreviewBlock::Heading { level, spans } => BlockV::Heading { level: *level, spans: span_views(spans@) },
            PreviewBlock::Paragraph { spans } => BlockV::Paragraph { spans: span_views(spans@) },
            PreviewBlock::ListItem { ordered, marker, spans } => BlockV::ListItem {
                ordered: *ordered,
                marker: marker@,
                spans: span_views(spans@),
            },
            PreviewBlock::Quote { spans } => BlockV::Quote { spans: span_views(spans@) },
            PreviewBlock::Code { language, text } => BlockV::Code { language: language@, text: text@ },
            PreviewBlock::Rule => BlockV::Rule,
        }
    }
}

pub open spec fn block_views(v: Seq<PreviewBlock>) -> Seq<BlockV> {
    v.map_values(|b: PreviewBlock| b@)
}

/// Where the renderer is: the blocks so far and what the open constructs
/// hold.
pub struct PState {
    pub blocks: Seq<BlockV>,
    pub spans: Seq<SpanV>,
    pub bold: nat,
    pub italic: nat,
    pub heading: Option<u8>,
    pub in_quote: bool,
    /// An open code block: its language and the text so far.
    pub code: Option<(Seq<char>, Seq<char>)>,
    /// The open lists: the next number of an ordered one, `None` for a
    /// bulleted one.
    pub lists: Seq<Option<u64>>,
    pub in_item: bool,
}

pub open spec fn pstart() -> PState {
    PState {
        blocks: Seq::empty(),
        spans: Seq::empty(),
        bold: 0,
        italic: 0,
        heading: None,
        in_quote: false,
        code: None,
        lists: Seq::empty(),
        in_item: false,
    }
}

pub open spec fn level_of(d: EvDataV) -> u8 {
    match d {
        EvDataV::Level(l) => l,
        _ => 3,
    }
}

pub open spec fn start_of(d: EvDataV) -> Option<u64> {
    match d {
        EvDataV::ListStart(s) => s,
        _ => None,
    }
}

/// `n + 1`, wrapping at the top of `u64`.
pub open spec fn next_number(n: u64) -> u64 {
    if n < u64::MAX {
        (n + 1) as u64
    } else {
        0
    }
}

pub open spec fn sat_dec(n: nat) -> nat {
    if n > 0 {
        (n - 1) as nat
    } else {
        0
    }
}

pub open spec fn en_dash() -> Seq<char> {
    seq!['\u{2013}']
}

/// The renderer's step on one event.
pub open spec fn pstep(s: PState, e: MdEventV) -> PState {
    match e.shape {
        EvShape::Start => match e.tag {
            TagKind::Heading => PState { heading: Some(level_of(e.data)), ..s },
            TagKind::BlockQuote => PState { in_quote: true, ..s },
            TagKind::CodeBlock => PState { code: Some((text_of(e.data), Seq::empty())), ..s },
            TagKind::List => PState { lists: s.lists.push(start_of(e.data)), ..s },
            TagKind::Item => PState { in_item: true, spans: Seq::empty(), ..s },
            TagKind::Strong => PState { bold: s.bold + 1, ..s },
            TagKind::Emphasis => PState { italic: s.italic + 1, ..s },
            _ => s,
        },
        EvShape::End => match e.tag {
            TagKind::Heading => PState {
                blocks: s.blocks.push(
                    BlockV::Heading {
                        level: match s.heading {
                            Some(l) => l,
                            None => 3,
                        },
                        spans: s.spans,
                    },
                ),
                spans: Seq::empty(),
                heading: None,
                ..s
            },
            TagKind::Paragraph => if s.in_item {
                s
            } else if s.in_quote {
                PState { blocks: s.blocks.push(BlockV::Quote { spans: s.spans }), spans: Seq::empty(), ..s }
            } else if s.spans.len() > 0 {
                PState { blocks: s.blocks.push(BlockV::Paragraph { spans: s.spans }), spans: Seq::empty(), ..s }
            } else {
                s
            },
            TagKind::BlockQuote => PState { in_quote: false, ..s },
            TagKind::CodeBlock => match s.code {
                Some((l, t)) => PState {
                    blocks: s.blocks.push(BlockV::Code { language: l, text: trim_end(t) }),
                    code: None,
                    ..s
                },
                None => s,
            },
            TagKind::List => PState {
                lists: if s.lists.len() > 0 {
                    s.lists.drop_last()
                } else {
                    s.lists
                },
                ..s
            },
            TagKind::Item => if s.lists.len() > 0 && s.lists.last() is Some {
                let n = s.lists.last()->0;
                PState {
                    in_item: false,
                    blocks: s.blocks.push(
                        BlockV::ListItem { ordered: true, marker: dec_of(n as nat).push('.'), spans: s.spans },
                    ),
                    spans: Seq::empty(),
                    lists: s.lists.update(s.lists.len() - 1, Some(next_number(n))),
                    ..s
                }
            } else {
                PState {
                    in_item: false,
                    blocks: s.blocks.push(BlockV::ListItem { ordered: false, marker: en_dash(), spans: s.spans }),
                    spans: Seq::empty(),
                    ..s
                }
            },
            TagKind::Strong => PState { bold: sat_dec(s.bold), ..s },
            TagKind::Emphasis => PState { italic: sat_dec(s.italic), ..s },
            _ => s,
        },
        EvShape::Rule => PState { blocks: s.blocks.push(BlockV::Rule), ..s },
        EvShape::Text => match s.code {
            Some((l, b)) => PState { code: Some((l, b + text_of(e.data))), ..s },
            None => PState {
                spans: s.spans.push(SpanV { text: text_of(e.data), bold: s.bold > 0, italic: s.italic > 0, code: false }),
                ..s
            },
        },
        EvShape::Code => PState {
            spans: s.spans.push(SpanV { text: text_of(e.data), bold: false, italic: false, code: true }),
            ..s
        },
        EvShape::SoftBreak | EvShape::HardBreak => match s.code {
            Some((l, b)) => PState { code: Some((l, b.push('\n'))), ..s },
            None => PState { spans: s.spans.push(SpanV { text: seq![' '], bold: false, italic: false, code: false }), ..s },
        },
        EvShape::Other => s,
    }
}

/// The renderer's state after `evs`.
pub open spec fn prun(evs: Seq<MdEventV>) -> PState
    decreases evs.len(),
{
    if evs.len() == 0 {
        pstart()
    } else {
        pstep(prun(evs.drop_last()), evs.last())
    }
}

/// The preview of `markdown`.
pub open spec fn render_spec(markdown: Seq<char>) -> Seq<BlockV> {
    prun(md_events(markdown, true, true)).blocks
}

struct Machine {
    blocks: Vec<PreviewBlock>,
    spans: Vec<PreviewSpan>,
    bold: usize,
    italic: usize,
    heading: Option<u8>,
    in_quote: bool,
    code: Option<(Vec<char>, Vec<char>)>,
    lists: Vec<Option<u64>>,
    in_item: bool,
}

impl View for Machine {
    type V = PState;

    closed spec fn view(&self) -> PState {
        PState {
            blocks: block_views(self.blocks@),
            spans: span_views(self.spans@),
            bold: self.bold as nat,
            italic: self.italic as nat,
            heading: self.heading,
            in_quote: self.in_quote,
            code: match self.code {
                Some((l, t)) => Some((l@, t@)),
                None => None,
            },
            lists: self.lists@,
            in_item: self.in_item,
        }
    }
}


fn take_spans(spans: &mut Vec<PreviewSpan>) -> (r: Vec<PreviewSpan>)
    ensures
        r@ == old(spans)@,
        final(spans)@ == Seq::<PreviewSpan>::empty(),
{
    let mut r: Vec<PreviewSpan> = Vec::new();
    std::mem::swap(&mut r, spans);
    r
}

fn data_text(d: &crate::markdown::EvData) -> (r: Vec<char>)
    ensures
        r@ == text_of(d@),
{
    match d {
        crate::markdown::EvData::Text(t) => chars_of(t.as_str()),
        _ => Vec::new(),
    }
}

impl Machine {
    fn new() -> (m: Self)
        ensures
            m@ == pstart(),
    {
        let m = Machine {
            blocks: Vec::new(),
            spans: Vec::new(),
            bold: 0,
            italic: 0,
            heading: None,
            in_quote: false,
            code: None,
            lists: Vec::new(),
            in_item: false,
        };
        assert(m@.blocks =~= Seq::<BlockV>::empty());
        assert(m@.spans =~= Seq::<SpanV>::empty());
        m
    }

    fn push_block(&mut self, b: PreviewBlock)
        ensures
            final(self)@ == (PState { blocks: old(self)@.blocks.push(b@), ..old(self)@ }),
    {
        self.blocks.push(b);
        assert(block_views(self.blocks@) =~= block_views(old(self).blocks@).push(b@));
    }

    fn push_span(&mut self, s: PreviewSpan)
        ensures
            final(self)@ == (PState { spans: old(self)@.spans.push(s@), ..old(self)@ }),
    {
        self.spans.push(s);
        assert(span_views(self.spans@) =~= span_views(old(self).spans@).push(s@));
    }

    fn step(&mut self, e: &MdEvent)
        requires
            old(self).bold < usize::MAX,
            old(self).italic < usize::MAX,
        ensures
            final(self)@ == pstep(old(self)@, e@),
    {
        let ghost s = self@;
        match e.shape {
            EvShape::Start => match e.tag {
                TagKind::Heading => {
                    self.heading = Some(
                        match &e.data {
                            crate::markdown::EvData::Level(l) => *l,
                            _ => 3,
                        },
                    );
                },
                TagKind::BlockQuote => {
                    self.in_quote = true;
                },
                TagKind::CodeBlock => {
                    let lang = data_text(&e.data);
                    self.code = Some((lang, Vec::new()));
                },
                TagKind::List => {
                    let start = match &e.data {
                        crate::markdown::EvData::ListStart(st) => *st,
                        _ => None,
                    };
                    self.lists.push(start);
                },
                TagKind::Item => {
                    self.in_item = true;
                    let _ = take_spans(&mut self.spans);
                    assert(span_views(self.spans@) =~= Seq::<SpanV>::empty());
                },
                TagKind::Strong => {
                    self.bold = self.bold + 1;
                },
                TagKind::Emphasis => {
                    self.italic = self.italic + 1;
                },
                _ => {},
            },
            EvShape::End => match e.tag {
                TagKind::Heading => {
                    let level = match self.heading {
                        Some(l) => l,
                        None => 3,
                    };
                    let spans = take_spans(&mut self.spans);
                    assert(span_views(self.spans@) =~= Seq::<SpanV>::empty());
                    self.heading = None;
                    self.push_block(PreviewBlock::Heading { level, spans });
                },
                TagKind::Paragraph => {
                    if self.in_item {
                    } else if self.in_quote {
                        let spans = take_spans(&mut self.spans);
                        assert(span_views(self.spans@) =~= Seq::<SpanV>::empty());
                        self.push_block(PreviewBlock::Quote { spans });
                    } else if self.spans.len() > 0 {
                        let spans = take_spans(&mut self.spans);
                        assert(span_views(self.spans@) =~= Seq::<SpanV>::empty());
                        self.push_block(PreviewBlock::Paragraph { spans });
                    }
                },
                TagKind::BlockQuote => {
                    self.in_quote = false;
                },
                TagKind::CodeBlock => {
                    let mut taken: Option<(Vec<char>, Vec<char>)> = None;
                    std::mem::swap(&mut taken, &mut self.code);
                    match taken {
                        Some((l, t)) => {
                            let tt = trim_end_chars(&t);
                            let language = string_of(l.as_slice());
                            let text = string_of(tt.as_slice());
                            self.push_block(PreviewBlock::Code { language, text });
                        },
                        None => {},
                    }
                },
                TagKind::List => {
                    if self.lists.len() > 0 {
                        self.lists.pop();
                        assert(self.lists@ =~= s.lists.drop_last());
                    }
                },
                TagKind::Item => {
                    self.in_item = false;
                    let n = self.lists.len();
                    if n > 0 && self.lists[n - 1].is_some() {
                        let k = self.lists[n - 1].unwrap();
                        let mut m = decimal(k);
                        m.push('.');
                        assert(m@ =~= dec_of(k as nat).push('.'));
                        let marker = string_of(m.as_slice());
                        let nk = if k < u64::MAX { k + 1 } else { 0 };
                        self.lists.set(n - 1, Some(nk));
                        let spans = take_spans(&mut self.spans);
                        assert(span_views(self.spans@) =~= Seq::<SpanV>::empty());
                        self.push_block(PreviewBlock::ListItem { ordered: true, marker, spans });
                    } else {
                        let dash = vec!['\u{2013}'];
                        assert(dash@ =~= en_dash());
                        let marker = string_of(dash.as_slice());
                        let spans = take_spans(&mut self.spans);
                        assert(span_views(self.spans@) =~= Seq::<SpanV>::empty());
                        self.push_block(PreviewBlock::ListItem { ordered: false, marker, spans });
                    }
                },
                TagKind::Strong => {
                    if self.bold > 0 {
                        self.bold = self.bold - 1;
                    }
                },
                TagKind::Emphasis => {
                    if self.italic > 0 {
                        self.italic = self.italic - 1;
                    }
                },
                _ => {},
            },
            EvShape::Rule => {
                self.push_block(PreviewBlock::Rule);
            },
            EvShape::Text => {
                let t = data_text(&e.data);
                let mut taken: Option<(Vec<char>, Vec<char>)> = None;
                std::mem::swap(&mut taken, &mut self.code);
                match taken {
                    Some((l, mut body)) => {
                        append_chars(&mut body, &t);
                        self.code = Some((l, body));
                    },
                    None => {
                        let span = PreviewSpan {
                            text: string_of(t.as_slice()),
                            bold: self.bold > 0,
                            italic: self.italic > 0,
                            code: false,
                        };
                        self.push_span(span);
                    },
                }
            },
            EvShape::Code => {
                let t = data_text(&e.data);
                let span = PreviewSpan { text: string_of(t.as_slice()), bold: false, italic: false, code: true };
                self.push_span(span);
            },
            EvShape::SoftBreak | EvShape::HardBreak => {
                let mut taken: Option<(Vec<char>, Vec<char>)> = None;
                std::mem::swap(&mut taken, &mut self.code);
                match taken {
                    Some((l, mut body)) => {
                        body.push('\n');
                        self.code = Some((l, body));
                    },
                    None => {
                        let sp = vec![' '];
                        assert(sp@ =~= seq![' ']);
                        let span = PreviewSpan { text: string_of(sp.as_slice()), bold: false, italic: false, code: false };
                        self.push_span(span);
                    },
                }
            },
            EvShape::Other => {},
        }
        assert(self@.blocks =~= pstep(s, e@).blocks);
        assert(self@.spans =~= pstep(s, e@).spans);
    }
}

/// Parse `markdown` into preview blocks.
pub fn render(markdown: &str) -> (r: Vec<PreviewBlock>)
    ensures
        block_views(r@) == render_spec(markdown@),
{
    let events = markdown_events(markdown, true, true);
    let ghost evs = event_views(events@);
    let mut m = Machine::new();
    let mut i: usize = 0;
    assert(evs.take(0) =~= Seq::<MdEventV>::empty());
    while i < events.len()
        invariant
            i <= events@.len(),
            evs == event_views(events@),
            m@ == prun(evs.take(i as int)),
            m.bold <= i,
            m.italic <= i,
        decreases events@.len() - i,
    {
        assert(evs.take(i + 1).drop_last() =~= evs.take(i as int));
        assert(evs.take(i + 1).last() == events@[i as int]@);
        m.step(&events[i]);
        proof {
            reveal_with_fuel(prun, 1);
        }
        assert(m.bold <= i + 1) by {
            assert(m@.bold <= prun(evs.take(i as int)).bold + 1);
        }
        i = i + 1;
    }
    assert(evs.take(events@.len() as int) =~= evs);
    m.blocks
}

} // verus!
