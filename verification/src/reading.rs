//! The desktop preview's reading model: markdown → the blocks the preview
//! shows (paragraphs and quotes, headings, code, list items with their
//! marker, rules, tables), each with the source byte offset where it
//! begins, and runs of text with the face they are set in. The widgets that
//! draw them are the front-end's; the offsets tie the preview's reading
//! pointer to the caret.

use vstd::prelude::*;
use crate::markdown::{EvShape, TagKind, TableTag, EvDataV, MdEvent, MdEventV, md_events, event_views, text_of, markdown_events, small_start, small_list_starts};
use crate::lines::{trim_end, trim_end_chars};
use crate::preview::{next_number, en_dash, level_of, start_of};
use crate::text::{dec_of, decimal, string_of, chars_of, append_chars};

verus! {

/// The face a run is set in.
#[derive(Debug, Clone, Copy, PartialEq, Eq, Structural)]
pub enum Face {
    Plain,
    Semibold,
    Italic,
    Mono,
}

#[derive(Debug, Clone)]
pub struct ReadSpan {
    pub text: String,
    pub face: Face,
}

pub struct RSpanV {
    pub text: Seq<char>,
    pub face: Face,
}

impl View for ReadSpan {
    type V = RSpanV;

    open spec fn view(&self) -> RSpanV {
        RSpanV { text: self.text@, face: self.face }
    }
}

#[derive(Debug)]
pub enum ReadKind {
    /// A paragraph; `quote` when it sits in a block quote.
    Paragraph { quote: bool, spans: Vec<ReadSpan> },
    Heading { level: u8, spans: Vec<ReadSpan> },
    Code { language: String, text: String },
    Item { marker: String, spans: Vec<ReadSpan> },
    Rule,
    /// Rows of cells of runs; the first row is the header.
    Table { rows: Vec<Vec<Vec<ReadSpan>>> },
}

#[derive(Debug)]
pub struct ReadBlock {
    pub kind: ReadKind,
    /// The source byte offset where the block begins.
    pub source: usize,
}

pub enum RKindV {
    Paragraph { quote: bool, spans: Seq<RSpanV> },
    Heading { level: u8, spans: Seq<RSpanV> },
    Code { language: Seq<char>, text: Seq<char> },
    Item { marker: Seq<char>, spans: Seq<RSpanV> },
    Rule,
    Table { rows: Seq<Seq<Seq<RSpanV>>> },
}

pub struct RBlockV {
    pub kind: RKindV,
    pub source: nat,
}

pub open spec fn rspans(v: Seq<ReadSpan>) -> Seq<RSpanV> {
    v.map_values(|s: ReadSpan| s@)
}

pub open spec fn rcells(v: Seq<Vec<ReadSpan>>) -> Seq<Seq<RSpanV>> {
    v.map_values(|c: Vec<ReadSpan>| rspans(c@))
}

pub open spec fn rrows(v: Seq<Vec<Vec<ReadSpan>>>) -> Seq<Seq<Seq<RSpanV>>> {
    v.map_values(|r: Vec<Vec<ReadSpan>>| rcells(r@))
}

impl View for ReadBlock {
    type V = RBlockV;

    open spec fn view(&self) -> RBlockV {
        RBlockV {
            kind: match &self.kind {
                ReadKind::Paragraph { quote, spans } => RKindV::Paragraph { quote: *quote, spans: rspans(spans@) },
                ReadKind::Heading { level, spans } => RKindV::Heading { level: *level, spans: rspans(spans@) },
                ReadKind::Code { language, text } => RKindV::Code { language: language@, text: text@ },
                ReadKind::Item { marker, spans } => RKindV::Item { marker: marker@, spans: rspans(spans@) },
                ReadKind::Rule => RKindV::Rule,
                ReadKind::Table { rows } => RKindV::Table { rows: rrows(rows@) },
            },
            source: self.source as nat,
        }
    }
}

pub open spec fn rblocks(v: Seq<ReadBlock>) -> Seq<RBlockV> {
    v.map_values(|b: ReadBlock| b@)
}

/// Where the reading model is.
pub struct RState {
    pub blocks: Seq<RBlockV>,
    pub spans: Seq<RSpanV>,
    pub bold: nat,
    pub emphasis: nat,
    pub in_quote: bool,
    pub heading: Option<u8>,
    pub code: Option<(Seq<char>, Seq<char>)>,
    pub lists: Seq<Option<u64>>,
    pub item: Option<Seq<RSpanV>>,
    pub table: Option<Seq<Seq<Seq<RSpanV>>>>,
    pub cell: Option<Seq<RSpanV>>,
    pub para_start: nat,
    pub heading_start: nat,
    pub item_start: nat,
    pub code_start: nat,
    pub table_start: nat,
}

pub open spec fn rstart() -> RState {
    RState {
        blocks: Seq::empty(),
        spans: Seq::empty(),
        bold: 0,
        emphasis: 0,
        in_quote: false,
        heading: None,
        code: None,
        lists: Seq::empty(),
        item: None,
        table: None,
        cell: None,
        para_start: 0,
        heading_start: 0,
        item_start: 0,
        code_start: 0,
        table_start: 0,
    }
}

/// The face text is set in: semibold inside strong, else italic inside
/// emphasis (or a quote), else plain.
pub open spec fn face_for(bold: nat, emphasis: nat, quote: bool) -> Face {
    if bold > 0 {
        Face::Semibold
    } else if emphasis > 0 || quote {
        Face::Italic
    } else {
        Face::Plain
    }
}

/// The open paragraph becomes a block (at `para_start`).
pub open spec fn rflush(s: RState) -> RState {
    if s.spans.len() > 0 {
        RState {
            blocks: s.blocks.push(
                RBlockV { kind: RKindV::Paragraph { quote: s.in_quote, spans: s.spans }, source: s.para_start },
            ),
            spans: Seq::empty(),
            ..s
        }
    } else {
        s
    }
}

/// A run goes to the open list item, else the open paragraph.
pub open spec fn rput(s: RState, r: RSpanV) -> RState {
    match s.item {
        Some(it) => RState { item: Some(it.push(r)), ..s },
        None => RState { spans: s.spans.push(r), ..s },
    }
}

pub open spec fn dec1(n: nat) -> nat {
    if n > 0 {
        (n - 1) as nat
    } else {
        0
    }
}

/// The reading model's step on one event.
pub open spec fn rstep(s: RState, e: MdEventV) -> RState {
    let text = text_of(e.data);
    match e.shape {
        EvShape::Start => if e.table == TableTag::Table {
            let f = rflush(s);
            RState { table: Some(Seq::empty()), table_start: e.offset, ..f }
        } else if e.table == TableTag::Head || e.table == TableTag::Row {
            match s.table {
                Some(rows) => RState { table: Some(rows.push(Seq::empty())), ..s },
                None => s,
            }
        } else if e.table == TableTag::Cell {
            RState { cell: Some(Seq::empty()), ..s }
        } else {
            match e.tag {
                TagKind::Heading => {
                    let f = rflush(s);
                    RState { heading: Some(level_of(e.data)), heading_start: e.offset, ..f }
                },
                TagKind::Paragraph => if s.item is None {
                    RState { para_start: e.offset, ..rflush(s) }
                } else {
                    s
                },
                TagKind::BlockQuote => RState { in_quote: true, ..rflush(s) },
                TagKind::CodeBlock => RState {
                    code: Some((text, Seq::empty())),
                    code_start: e.offset,
                    ..rflush(s)
                },
                TagKind::List => {
                    let f = rflush(s);
                    RState { lists: f.lists.push(start_of(e.data)), ..f }
                },
                TagKind::Item => RState { item: Some(Seq::empty()), item_start: e.offset, ..s },
                TagKind::Strong => RState { bold: s.bold + 1, ..s },
                TagKind::Emphasis => RState { emphasis: s.emphasis + 1, ..s },
                _ => s,
            }
        },
        EvShape::End => if e.table == TableTag::Table {
            match s.table {
                Some(rows) => RState {
                    blocks: s.blocks.push(RBlockV { kind: RKindV::Table { rows }, source: s.table_start }),
                    table: None,
                    ..s
                },
                None => s,
            }
        } else if e.table == TableTag::Cell {
            match (s.cell, s.table) {
                (Some(c), Some(rows)) => RState {
                    table: Some(
                        if rows.len() > 0 {
                            rows.update(rows.len() - 1, rows.last().push(c))
                        } else {
                            rows
                        },
                    ),
                    cell: None,
                    ..s
                },
                _ => RState { cell: None, ..s },
            }
        } else if e.table != TableTag::NotTable {
            s
        } else {
            match e.tag {
                TagKind::Heading => {
                    let level = match s.heading {
                        Some(l) => l,
                        None => 3,
                    };
                    if s.spans.len() > 0 {
                        RState {
                            blocks: s.blocks.push(
                                RBlockV { kind: RKindV::Heading { level, spans: s.spans }, source: s.heading_start },
                            ),
                            spans: Seq::empty(),
                            heading: None,
                            ..s
                        }
                    } else {
                        RState { heading: None, ..s }
                    }
                },
                TagKind::Paragraph => if s.item is None {
                    rflush(s)
                } else {
                    s
                },
                TagKind::BlockQuote => RState { in_quote: false, ..rflush(s) },
                TagKind::CodeBlock => match s.code {
                    Some((l, c)) => RState {
                        blocks: s.blocks.push(
                            RBlockV { kind: RKindV::Code { language: l, text: trim_end(c) }, source: s.code_start },
                        ),
                        code: None,
                        ..s
                    },
                    None => s,
                },
                TagKind::List => RState {
                    lists: if s.lists.len() > 0 {
                        s.lists.drop_last()
                    } else {
                        s.lists
                    },
                    ..s
                },
                TagKind::Item => match s.item {
                    Some(it) => if s.lists.len() > 0 && s.lists.last() is Some {
                        let n = s.lists.last()->0;
                        RState {
                            blocks: s.blocks.push(
                                RBlockV {
                                    kind: RKindV::Item { marker: dec_of(n as nat).push('.'), spans: it },
                                    source: s.item_start,
                                },
                            ),
                            lists: s.lists.update(s.lists.len() - 1, Some(next_number(n))),
                            item: None,
                            ..s
                        }
                    } else {
                        RState {
                            blocks: s.blocks.push(
                                RBlockV { kind: RKindV::Item { marker: en_dash(), spans: it }, source: s.item_start },
                            ),
                            item: None,
                            ..s
                        }
                    },
                    None => s,
                },
                TagKind::Strong => RState { bold: dec1(s.bold), ..s },
                TagKind::Emphasis => RState { emphasis: dec1(s.emphasis), ..s },
                _ => s,
            }
        },
        EvShape::Rule => {
            let f = rflush(s);
            RState { blocks: f.blocks.push(RBlockV { kind: RKindV::Rule, source: e.offset }), ..f }
        },
        EvShape::Text => match s.code {
            Some((l, c)) => RState { code: Some((l, c + text)), ..s },
            None => match s.cell {
                Some(c) => RState {
                    cell: Some(c.push(RSpanV { text, face: face_for(s.bold, s.emphasis, false) })),
                    ..s
                },
                None => rput(s, RSpanV { text, face: face_for(s.bold, s.emphasis, s.in_quote) }),
            },
        },
        EvShape::Code => match s.cell {
            Some(c) => RState { cell: Some(c.push(RSpanV { text, face: Face::Mono })), ..s },
            None => rput(s, RSpanV { text, face: Face::Mono }),
        },
        EvShape::SoftBreak | EvShape::HardBreak => match s.code {
            Some((l, c)) => RState { code: Some((l, c.push('\n'))), ..s },
            None => rput(s, RSpanV { text: seq![' '], face: Face::Plain }),
        },
        EvShape::Other => s,
    }
}

pub open spec fn rrun(evs: Seq<MdEventV>) -> RState
    decreases evs.len(),
{
    if evs.len() == 0 {
        rstart()
    } else {
        rstep(rrun(evs.drop_last()), evs.last())
    }
}

/// The preview's blocks for `source`.
pub open spec fn reading_spec(source: Seq<char>) -> Seq<RBlockV> {
    rflush(rrun(md_events(source, true, true))).blocks
}

struct Reader {
    blocks: Vec<ReadBlock>,
    spans: Vec<ReadSpan>,
    bold: usize,
    emphasis: usize,
    in_quote: bool,
    heading: Option<u8>,
    code: Option<(Vec<char>, Vec<char>)>,
    lists: Vec<Option<u64>>,
    item: Option<Vec<ReadSpan>>,
    table: Option<Vec<Vec<Vec<ReadSpan>>>>,
    cell: Option<Vec<ReadSpan>>,
    para_start: usize,
    heading_start: usize,
    item_start: usize,
    code_start: usize,
    table_start: usize,
}

impl View for Reader {
    type V = RState;

    closed spec fn view(&self) -> RState {
        RState {
            blocks: rblocks(self.blocks@),
            spans: rspans(self.spans@),
            bold: self.bold as nat,
            emphasis: self.emphasis as nat,
            in_quote: self.in_quote,
            heading: self.heading,
            code: match self.code {
                Some((l, c)) => Some((l@, c@)),
                None => None,
            },
            lists: self.lists@,
            item: match self.item {
                Some(it) => Some(rspans(it@)),
                None => None,
            },
            table: match self.table {
                Some(rows) => Some(rrows(rows@)),
                None => None,
            },
            cell: match self.cell {
                Some(c) => Some(rspans(c@)),
                None => None,
            },
            para_start: self.para_start as nat,
            heading_start: self.heading_start as nat,
            item_start: self.item_start as nat,
            code_start: self.code_start as nat,
            table_start: self.table_start as nat,
        }
    }
}

fn data_text(d: &crate::markdown::EvData) -> (r: Vec<char>)
    ensures
        r@ == text_of(d@),
{
    match d {
        crate::markdown::EvData::Text(t) => chars_of(t.as_str()),
        _ => Vec::new(),
    }
}

fn span_of(t: &Vec<char>, face: Face) -> (r: ReadSpan)
    ensures
        r@ == (RSpanV { text: t@, face }),
{
    ReadSpan { text: string_of(t.as_slice()), face }
}

fn face_of(bold: usize, emphasis: usize, quote: bool) -> (f: Face)
    ensures
        f == face_for(bold as nat, emphasis as nat, quote),
{
    if bold > 0 {
        Face::Semibold
    } else if emphasis > 0 || quote {
        Face::Italic
    } else {
        Face::Plain
    }
}

impl Reader {
    fn new() -> (r: Self)
        ensures
            r@ == rstart(),
    {
        let r = Reader {
            blocks: Vec::new(),
            spans: Vec::new(),
            bold: 0,
            emphasis: 0,
            in_quote: false,
            heading: None,
            code: None,
            lists: Vec::new(),
            item: None,
            table: None,
            cell: None,
            para_start: 0,
            heading_start: 0,
            item_start: 0,
            code_start: 0,
            table_start: 0,
        };
        assert(r@.blocks =~= Seq::<RBlockV>::empty());
        assert(r@.spans =~= Seq::<RSpanV>::empty());
        r
    }

    fn push_block(&mut self, b: ReadBlock)
        ensures
            final(self)@ == (RState { blocks: old(self)@.blocks.push(b@), ..old(self)@ }),
    {
        self.blocks.push(b);
        assert(rblocks(self.blocks@) =~= rblocks(old(self).blocks@).push(b@));
    }

    fn flush(&mut self)
        ensures
            final(self)@ == rflush(old(self)@),
    {
        if self.spans.len() > 0 {
            let mut spans: Vec<ReadSpan> = Vec::new();
            std::mem::swap(&mut spans, &mut self.spans);
            assert(rspans(self.spans@) =~= Seq::<RSpanV>::empty());
            let b = ReadBlock { kind: ReadKind::Paragraph { quote: self.in_quote, spans }, source: self.para_start };
            self.push_block(b);
        }
    }

    fn put(&mut self, r: ReadSpan)
        ensures
            final(self)@ == rput(old(self)@, r@),
    {
        let mut taken: Option<Vec<ReadSpan>> = None;
        std::mem::swap(&mut taken, &mut self.item);
        match taken {
            Some(mut it) => {
                let ghost before = rspans(it@);
                it.push(r);
                assert(rspans(it@) =~= before.push(r@));
                self.item = Some(it);
            },
            None => {
                let ghost before = rspans(self.spans@);
                self.spans.push(r);
                assert(rspans(self.spans@) =~= before.push(r@));
            },
        }
    }

    fn put_in_cell(&mut self, r: ReadSpan)
        requires
            old(self).cell is Some,
        ensures
            final(self)@ == (RState {
                cell: Some(old(self)@.cell->0.push(r@)),
                ..old(self)@
            }),
    {
        let mut taken: Option<Vec<ReadSpan>> = None;
        std::mem::swap(&mut taken, &mut self.cell);
        let mut c = taken.unwrap();
        let ghost before = rspans(c@);
        c.push(r);
        assert(rspans(c@) =~= before.push(r@));
        self.cell = Some(c);
    }

    fn step_start(&mut self, e: &MdEvent)
        requires
            e.shape == EvShape::Start,
            old(self).bold < usize::MAX,
            old(self).emphasis < usize::MAX,
        ensures
            final(self)@ == rstep(old(self)@, e@),
    {
        if e.table == TableTag::Table {
            self.flush();
            self.table = Some(Vec::new());
            self.table_start = e.offset;
            assert(self@.table == Some(Seq::<Seq<Seq<RSpanV>>>::empty()));
        } else if e.table == TableTag::Head || e.table == TableTag::Row {
            let mut taken: Option<Vec<Vec<Vec<ReadSpan>>>> = None;
            std::mem::swap(&mut taken, &mut self.table);
            match taken {
                Some(mut rows) => {
                    let ghost before = rrows(rows@);
                    let row: Vec<Vec<ReadSpan>> = Vec::new();
                    assert(rcells(row@) =~= Seq::<Seq<RSpanV>>::empty());
                    rows.push(row);
                    assert(rrows(rows@) =~= before.push(Seq::empty()));
                    self.table = Some(rows);
                },
                None => {},
            }
        } else if e.table == TableTag::Cell {
            self.cell = Some(Vec::new());
            assert(self@.cell == Some(Seq::<RSpanV>::empty()));
        } else {
            match e.tag {
                TagKind::Heading => {
                    self.flush();
                    self.heading = Some(
                        match &e.data {
                            crate::markdown::EvData::Level(l) => *l,
                            _ => 3,
                        },
                    );
                    self.heading_start = e.offset;
                },
                TagKind::Paragraph => {
                    if self.item.is_none() {
                        self.flush();
                        self.para_start = e.offset;
                    }
                },
                TagKind::BlockQuote => {
                    self.flush();
                    self.in_quote = true;
                },
                TagKind::CodeBlock => {
                    self.flush();
                    let lang = data_text(&e.data);
                    self.code = Some((lang, Vec::new()));
                    self.code_start = e.offset;
                },
                TagKind::List => {
                    self.flush();
                    let start = match &e.data {
                        crate::markdown::EvData::ListStart(st) => *st,
                        _ => None,
                    };
                    self.lists.push(start);
                },
                TagKind::Item => {
                    self.item = Some(Vec::new());
                    self.item_start = e.offset;
                    assert(self@.item == Some(Seq::<RSpanV>::empty()));
                },
                TagKind::Strong => {
                    self.bold = self.bold + 1;
                },
                TagKind::Emphasis => {
                    self.emphasis = self.emphasis + 1;
                },
                _ => {},
            }
        }
    }

    fn step_end(&mut self, e: &MdEvent)
        requires
            e.shape == EvShape::End,
        ensures
            final(self)@ == rstep(old(self)@, e@),
    {
        if e.table == TableTag::Table {
            let mut taken: Option<Vec<Vec<Vec<ReadSpan>>>> = None;
            std::mem::swap(&mut taken, &mut self.table);
            match taken {
                Some(rows) => {
                    let b = ReadBlock { kind: ReadKind::Table { rows }, source: self.table_start };
                    self.push_block(b);
                },
                None => {},
            }
        } else if e.table == TableTag::Cell {
            let mut cell: Option<Vec<ReadSpan>> = None;
            std::mem::swap(&mut cell, &mut self.cell);
            let mut table: Option<Vec<Vec<Vec<ReadSpan>>>> = None;
            std::mem::swap(&mut table, &mut self.table);
            match (cell, table) {
                (Some(c), Some(mut rows)) => {
                    let ghost before = rrows(rows@);
                    if rows.len() > 0 {
                        let mut last = rows.pop().unwrap();
                        let ghost lv = rcells(last@);
                        let ghost cv = rspans(c@);
                        last.push(c);
                        assert(rcells(last@) =~= lv.push(cv));
                        rows.push(last);
                        assert(rrows(rows@) =~= before.update(before.len() - 1, before.last().push(cv)));
                    }
                    self.table = Some(rows);
                },
                (_, t) => {
                    self.table = t;
                },
            }
        } else if e.table != TableTag::NotTable {
        } else {
            match e.tag {
                TagKind::Heading => {
                    let level = match self.heading {
                        Some(l) => l,
                        None => 3,
                    };
                    self.heading = None;
                    if self.spans.len() > 0 {
                        let mut spans: Vec<ReadSpan> = Vec::new();
                        std::mem::swap(&mut spans, &mut self.spans);
                        assert(rspans(self.spans@) =~= Seq::<RSpanV>::empty());
                        let b = ReadBlock { kind: ReadKind::Heading { level, spans }, source: self.heading_start };
                        self.push_block(b);
                    }
                },
                TagKind::Paragraph => {
                    if self.item.is_none() {
                        self.flush();
                    }
                },
                TagKind::BlockQuote => {
                    self.flush();
                    self.in_quote = false;
                },
                TagKind::CodeBlock => {
                    let mut taken: Option<(Vec<char>, Vec<char>)> = None;
                    std::mem::swap(&mut taken, &mut self.code);
                    match taken {
                        Some((l, c)) => {
                            let t = trim_end_chars(&c);
                            let b = ReadBlock {
                                kind: ReadKind::Code { language: string_of(l.as_slice()), text: string_of(t.as_slice()) },
                                source: self.code_start,
                            };
                            self.push_block(b);
                        },
                        None => {},
                    }
                },
                TagKind::List => {
                    if self.lists.len() > 0 {
                        let ghost l = self.lists@;
                        self.lists.pop();
                        assert(self.lists@ =~= l.drop_last());
                    }
                },
                TagKind::Item => {
                    let mut taken: Option<Vec<ReadSpan>> = None;
                    std::mem::swap(&mut taken, &mut self.item);
                    match taken {
                        Some(it) => {
                            let n = self.lists.len();
                            let marker = if n > 0 && self.lists[n - 1].is_some() {
                                let k = self.lists[n - 1].unwrap();
                                let mut m = decimal(k);
                                m.push('.');
                                assert(m@ =~= dec_of(k as nat).push('.'));
                                let nk = if k < u64::MAX {
                                    k + 1
                                } else {
                                    0
                                };
                                self.lists.set(n - 1, Some(nk));
                                string_of(m.as_slice())
                            } else {
                                let dash = vec!['\u{2013}'];
                                assert(dash@ =~= en_dash());
                                string_of(dash.as_slice())
                            };
                            let b = ReadBlock { kind: ReadKind::Item { marker, spans: it }, source: self.item_start };
                            self.push_block(b);
                        },
                        None => {},
                    }
                },
                TagKind::Strong => {
                    if self.bold > 0 {
                        self.bold = self.bold - 1;
                    }
                },
                TagKind::Emphasis => {
                    if self.emphasis > 0 {
                        self.emphasis = self.emphasis - 1;
                    }
                },
                _ => {},
            }
        }
    }

    fn step_inline(&mut self, e: &MdEvent)
        requires
            e.shape != EvShape::Start,
            e.shape != EvShape::End,
        ensures
            final(self)@ == rstep(old(self)@, e@),
    {
        match e.shape {
            EvShape::Rule => {
                self.flush();
                self.push_block(ReadBlock { kind: ReadKind::Rule, source: e.offset });
            },
            EvShape::Text => {
                let t = data_text(&e.data);
                let mut taken: Option<(Vec<char>, Vec<char>)> = None;
                std::mem::swap(&mut taken, &mut self.code);
                match taken {
                    Some((l, mut c)) => {
                        append_chars(&mut c, &t);
                        self.code = Some((l, c));
                    },
                    None => {
                        if self.cell.is_some() {
                            let f = face_of(self.bold, self.emphasis, false);
                            self.put_in_cell(span_of(&t, f));
                        } else {
                            let f = face_of(self.bold, self.emphasis, self.in_quote);
                            self.put(span_of(&t, f));
                        }
                    },
                }
            },
            EvShape::Code => {
                let t = data_text(&e.data);
                if self.cell.is_some() {
                    self.put_in_cell(span_of(&t, Face::Mono));
                } else {
                    self.put(span_of(&t, Face::Mono));
                }
            },
            EvShape::SoftBreak | EvShape::HardBreak => {
                let mut taken: Option<(Vec<char>, Vec<char>)> = None;
                std::mem::swap(&mut taken, &mut self.code);
                match taken {
                    Some((l, mut c)) => {
                        c.push('\n');
                        self.code = Some((l, c));
                    },
                    None => {
                        let sp = vec![' '];
                        assert(sp@ =~= seq![' ']);
                        self.put(span_of(&sp, Face::Plain));
                    },
                }
            },
            _ => {},
        }
    }
}

/// The preview's blocks for `source`, in view order.
pub fn reading_blocks(source: &str) -> (r: Vec<ReadBlock>)
    ensures
        rblocks(r@) == reading_spec(source@),
{
    let events = markdown_events(source, true, true);
    let ghost evs = event_views(events@);
    let mut rd = Reader::new();
    let mut i: usize = 0;
    assert(evs.take(0) =~= Seq::<MdEventV>::empty());
    while i < events.len()
        invariant
            i <= events@.len(),
            evs == event_views(events@),
            rd@ == rrun(evs.take(i as int)),
            rd.bold <= i,
            rd.emphasis <= i,
        decreases events@.len() - i,
    {
        assert(evs.take(i + 1).drop_last() =~= evs.take(i as int));
        assert(evs.take(i + 1).last() == events@[i as int]@);
        let e = &events[i];
        if e.shape == EvShape::Start {
            rd.step_start(e);
        } else if e.shape == EvShape::End {
            rd.step_end(e);
        } else {
            rd.step_inline(e);
        }
        assert(rd.bold <= i + 1 && rd.emphasis <= i + 1) by {
            assert(rd@.bold <= rrun(evs.take(i as int)).bold + 1);
            assert(rd@.emphasis <= rrun(evs.take(i as int)).emphasis + 1);
        }
        i = i + 1;
    }
    assert(evs.take(events@.len() as int) =~= evs);
    rd.flush();
    rd.blocks
}

/// The source byte offset of each preview block, in view order.
pub fn block_offsets(source: &str) -> (r: Vec<usize>)
    ensures
        r@.len() == reading_spec(source@).len(),
        forall|i: int| 0 <= i < r@.len() ==> r@[i] == #[trigger] reading_spec(source@)[i].source,
{
    let blocks = reading_blocks(source);
    let mut out: Vec<usize> = Vec::new();
    let mut i: usize = 0;
    while i < blocks.len()
        invariant
            i <= blocks@.len(),
            rblocks(blocks@) == reading_spec(source@),
            out@.len() == i,
            forall|k: int| 0 <= k < i ==> out@[k] == #[trigger] reading_spec(source@)[k].source,
        decreases blocks@.len() - i,
    {
        assert(reading_spec(source@)[i as int] == blocks@[i as int]@);
        out.push(blocks[i].source);
        i = i + 1;
    }
    out
}

} // verus!
