//! Markdown → Notion blocks: headings (three levels), paragraphs, bulleted
//! and numbered list items, code blocks with their language, quotes and
//! dividers, each holding rich-text runs annotated as inline code, bold
//! (inside `**strong**`) or italic (inside `*emphasis*`). The
//! front-end turns the blocks into the API's JSON and sends them.

use vstd::prelude::*;
use crate::markdown::{EvShape, TagKind, EvDataV, MdEvent, MdEventV, md_events, event_views, text_of, markdown_events};
use crate::lines::{trim_end, trim_end_chars};
use crate::text::{string_of, chars_of, append_chars};

verus! {

#[derive(Debug, Clone, Copy, PartialEq, Eq, Structural)]
pub enum BlockKind {
    Heading1,
    Heading2,
    Heading3,
    Paragraph,
    BulletedListItem,
    NumberedListItem,
    Code,
    Quote,
    Divider,
}

/// A run of text and its annotations: `code` marks inline code, `bold`
/// and `italic` strong and emphasised text.
#[derive(Debug, Clone)]
pub struct RichText {
    pub content: String,
    pub code: bool,
    pub bold: bool,
    pub italic: bool,
}

/// One block; `language` is a code block's (empty otherwise). A divider
/// holds no text.
#[derive(Debug, Clone)]
pub struct NotionBlock {
    pub kind: BlockKind,
    pub rich_text: Vec<RichText>,
    pub language: String,
}

pub struct RichV {
    pub content: Seq<char>,
    pub code: bool,
    pub bold: bool,
    pub italic: bool,
}

pub struct NBlockV {
    pub kind: BlockKind,
    pub rich_text: Seq<RichV>,
    pub language: Seq<char>,
}

impl View for RichText {
    type V = RichV;

    open spec fn view(&self) -> RichV {
        RichV { content: self.content@, code: self.code, bold: self.bold, italic: self.italic }
    }
}

pub open spec fn rich_views(v: Seq<RichText>) -> Seq<RichV> {
    v.map_values(|r: RichText| r@)
}

impl View for NotionBlock {
    type V = NBlockV;

    open spec fn view(&self) -> NBlockV {
        NBlockV { kind: self.kind, rich_text: rich_views(self.rich_text@), language: self.language@ }
    }
}

pub open spec fn nblock_views(v: Seq<NotionBlock>) -> Seq<NBlockV> {
    v.map_values(|b: NotionBlock| b@)
}

/// The block's `type` in the Notion API.
pub open spec fn api_type_of(k: BlockKind) -> Seq<char> {
    match k {
        BlockKind::Heading1 => "heading_1"@,
        BlockKind::Heading2 => "heading_2"@,
        BlockKind::Heading3 => "heading_3"@,
        BlockKind::Paragraph => "paragraph"@,
        BlockKind::BulletedListItem => "bulleted_list_item"@,
        BlockKind::NumberedListItem => "numbered_list_item"@,
        BlockKind::Code => "code"@,
        BlockKind::Quote => "quote"@,
        BlockKind::Divider => "divider"@,
    }
}

impl BlockKind {
    /// The block's `type` in the Notion API.
    pub fn api_type(&self) -> (r: &'static str)
        ensures
            r@ == api_type_of(*self),
    {
        match self {
            BlockKind::Heading1 => "heading_1",
            BlockKind::Heading2 => "heading_2",
            BlockKind::Heading3 => "heading_3",
            BlockKind::Paragraph => "paragraph",
            BlockKind::BulletedListItem => "bulleted_list_item",
            BlockKind::NumberedListItem => "numbered_list_item",
            BlockKind::Code => "code",
            BlockKind::Quote => "quote",
            BlockKind::Divider => "divider",
        }
    }
}

/// Where the conversion is.
pub struct NState {
    pub blocks: Seq<NBlockV>,
    pub para: Seq<RichV>,
    pub items: Seq<NBlockV>,
    pub in_code: bool,
    pub in_heading: bool,
    pub in_quote: bool,
    pub code: Seq<char>,
    pub lang: Seq<char>,
    /// The open lists, `true` for an ordered one.
    pub lists: Seq<bool>,
    /// How many strong and emphasis spans are open.
    pub strong: usize,
    pub emph: usize,
}

pub open spec fn nstart() -> NState {
    NState {
        blocks: Seq::empty(),
        para: Seq::empty(),
        items: Seq::empty(),
        in_code: false,
        in_heading: false,
        in_quote: false,
        code: Seq::empty(),
        lang: Seq::empty(),
        lists: Seq::empty(),
        strong: 0,
        emph: 0,
    }
}

/// One more span open (the count stops at the largest `usize`).
pub open spec fn deeper(n: usize) -> usize {
    if n < usize::MAX {
        (n + 1) as usize
    } else {
        n
    }
}

/// One span fewer open.
pub open spec fn shallower(n: usize) -> usize {
    if n > 0 {
        (n - 1) as usize
    } else {
        0
    }
}

/// A text run, annotated by the strong and emphasis spans open around it.
pub open spec fn text_run(t: Seq<char>, code: bool, strong: usize, emph: usize) -> RichV {
    RichV { content: t, code, bold: strong > 0, italic: emph > 0 }
}

/// A run with no annotation.
pub open spec fn plain_run(t: Seq<char>) -> RichV {
    RichV { content: t, code: false, bold: false, italic: false }
}

pub open spec fn empty_block(kind: BlockKind) -> NBlockV {
    NBlockV { kind, rich_text: Seq::empty(), language: Seq::empty() }
}

pub open spec fn heading_kind(d: EvDataV) -> BlockKind {
    match d {
        EvDataV::Level(1) => BlockKind::Heading1,
        EvDataV::Level(2) => BlockKind::Heading2,
        _ => BlockKind::Heading3,
    }
}

/// The open paragraph becomes a block.
pub open spec fn flush_para(s: NState) -> NState {
    if s.para.len() > 0 {
        NState {
            blocks: s.blocks.push(NBlockV { kind: BlockKind::Paragraph, rich_text: s.para, language: Seq::empty() }),
            para: Seq::empty(),
            ..s
        }
    } else {
        s
    }
}

/// The collected list items join the blocks.
pub open spec fn flush_list(s: NState) -> NState {
    NState { blocks: s.blocks + s.items, items: Seq::empty(), ..s }
}

/// `r` appended to the last of `bs` (when it holds text).
pub open spec fn add_to_last(bs: Seq<NBlockV>, r: RichV) -> Seq<NBlockV> {
    if bs.len() > 0 && bs.last().kind != BlockKind::Divider {
        bs.update(bs.len() - 1, NBlockV { rich_text: bs.last().rich_text.push(r), ..bs.last() })
    } else {
        bs
    }
}

/// Where an inline run goes: the open list item, else the open heading or
/// quote block, else the paragraph.
pub open spec fn place_run(s: NState, r: RichV) -> NState {
    if s.items.len() > 0 {
        NState { items: add_to_last(s.items, r), ..s }
    } else if s.in_heading || s.in_quote {
        NState { blocks: add_to_last(s.blocks, r), ..s }
    } else {
        NState { para: s.para.push(r), ..s }
    }
}

pub open spec fn plain_text() -> Seq<char> {
    seq!['p', 'l', 'a', 'i', 'n', ' ', 't', 'e', 'x', 't']
}

/// The conversion's step on one event.
pub open spec fn nstep(s: NState, e: MdEventV) -> NState {
    match e.shape {
        EvShape::Start => match e.tag {
            TagKind::Heading => {
                let f = flush_para(s);
                NState { blocks: f.blocks.push(empty_block(heading_kind(e.data))), in_heading: true, ..f }
            },
            TagKind::Paragraph => flush_para(s),
            TagKind::List => {
                let f = flush_para(s);
                NState { lists: f.lists.push(e.data matches EvDataV::ListStart(Some(_))), ..f }
            },
            TagKind::Item => NState {
                items: s.items.push(
                    empty_block(
                        if s.lists.len() > 0 && s.lists.last() {
                            BlockKind::NumberedListItem
                        } else {
                            BlockKind::BulletedListItem
                        },
                    ),
                ),
                ..s
            },
            TagKind::CodeBlock => {
                let f = flush_para(s);
                NState { in_code: true, code: Seq::empty(), lang: text_of(e.data), ..f }
            },
            TagKind::BlockQuote => {
                let f = flush_para(s);
                NState { blocks: f.blocks.push(empty_block(BlockKind::Quote)), in_quote: true, ..f }
            },
            TagKind::Strong => NState { strong: deeper(s.strong), ..s },
            TagKind::Emphasis => NState { emph: deeper(s.emph), ..s },
            _ => s,
        },
        EvShape::End => match e.tag {
            TagKind::Heading => NState { in_heading: false, ..s },
            TagKind::Paragraph => flush_para(s),
            TagKind::List => {
                let f = flush_list(s);
                NState {
                    lists: if f.lists.len() > 0 {
                        f.lists.drop_last()
                    } else {
                        f.lists
                    },
                    ..f
                }
            },
            TagKind::CodeBlock => NState {
                in_code: false,
                blocks: s.blocks.push(
                    NBlockV {
                        kind: BlockKind::Code,
                        rich_text: seq![plain_run(trim_end(s.code))],
                        language: if s.lang.len() == 0 {
                            plain_text()
                        } else {
                            s.lang
                        },
                    },
                ),
                code: Seq::empty(),
                ..s
            },
            TagKind::BlockQuote => NState { in_quote: false, ..s },
            TagKind::Strong => NState { strong: shallower(s.strong), ..s },
            TagKind::Emphasis => NState { emph: shallower(s.emph), ..s },
            _ => s,
        },
        EvShape::Text => if s.in_code {
            NState { code: s.code + text_of(e.data), ..s }
        } else {
            place_run(s, text_run(text_of(e.data), false, s.strong, s.emph))
        },
        EvShape::Code => place_run(s, text_run(text_of(e.data), true, s.strong, s.emph)),
        EvShape::Rule => {
            let f = flush_para(s);
            NState { blocks: f.blocks.push(empty_block(BlockKind::Divider)), ..f }
        },
        EvShape::SoftBreak | EvShape::HardBreak => if !s.in_code {
            NState { para: s.para.push(plain_run(seq!['\n'])), ..s }
        } else {
            NState { code: s.code.push('\n'), ..s }
        },
        EvShape::Other => s,
    }
}

/// A list item takes the kind of the innermost open list: whatever lists
/// are already open around it, an item that starts right inside a newly
/// opened list is numbered when that list is ordered and bulleted when not.
pub proof fn lemma_item_kind_follows_innermost_list(s: NState, list: MdEventV, item: MdEventV)
    requires
        list.shape == EvShape::Start,
        list.tag == TagKind::List,
        item.shape == EvShape::Start,
        item.tag == TagKind::Item,
    ensures
        ({
            let r = nstep(nstep(s, list), item);
            &&& r.items.len() == s.items.len() + 1
            &&& r.items.last().kind == if list.data matches EvDataV::ListStart(Some(_)) {
                BlockKind::NumberedListItem
            } else {
                BlockKind::BulletedListItem
            }
        }),
{
}

/// Closing a nested list hands items back to the list around it: after a
/// list opens, a nested list opens and closes again, the next item takes the
/// outer list's kind.
pub proof fn lemma_item_kind_after_nested_list(
    s: NState,
    outer: MdEventV,
    inner: MdEventV,
    inner_end: MdEventV,
    item: MdEventV,
)
    requires
        outer.shape == EvShape::Start,
        outer.tag == TagKind::List,
        inner.shape == EvShape::Start,
        inner.tag == TagKind::List,
        inner_end.shape == EvShape::End,
        inner_end.tag == TagKind::List,
        item.shape == EvShape::Start,
        item.tag == TagKind::Item,
    ensures
        nstep(nstep(nstep(nstep(s, outer), inner), inner_end), item).items.last().kind == if outer.data matches EvDataV::ListStart(Some(_)) {
            BlockKind::NumberedListItem
        } else {
            BlockKind::BulletedListItem
        },
{
    let s1 = nstep(s, outer);
    let s2 = nstep(s1, inner);
    let s3 = nstep(s2, inner_end);
    assert(s2.lists.drop_last() =~= s1.lists);
    assert(s3.lists == s1.lists);
}

pub open spec fn nrun(evs: Seq<MdEventV>) -> NState
    decreases evs.len(),
{
    if evs.len() == 0 {
        nstart()
    } else {
        nstep(nrun(evs.drop_last()), evs.last())
    }
}

/// The blocks for `evs`: the run, then the open paragraph and list items.
pub open spec fn blocks_of(evs: Seq<MdEventV>) -> Seq<NBlockV> {
    flush_list(flush_para(nrun(evs))).blocks
}

struct Conv {
    blocks: Vec<NotionBlock>,
    para: Vec<RichText>,
    items: Vec<NotionBlock>,
    in_code: bool,
    in_heading: bool,
    in_quote: bool,
    code: Vec<char>,
    lang: Vec<char>,
    lists: Vec<bool>,
    strong: usize,
    emph: usize,
}

impl View for Conv {
    type V = NState;

    closed spec fn view(&self) -> NState {
        NState {
            blocks: nblock_views(self.blocks@),
            para: rich_views(self.para@),
            items: nblock_views(self.items@),
            in_code: self.in_code,
            in_heading: self.in_heading,
            in_quote: self.in_quote,
            code: self.code@,
            lang: self.lang@,
            lists: self.lists@,
            strong: self.strong,
            emph: self.emph,
        }
    }
}

pub(crate) fn new_block(kind: BlockKind) -> (b: NotionBlock)
    ensures
        b@ == empty_block(kind),
{
    let b = NotionBlock { kind, rich_text: Vec::new(), language: String::new() };
    assert(b@.rich_text =~= Seq::<RichV>::empty());
    assert(b@.language =~= Seq::<char>::empty());
    b
}

fn add_run_to_last(bs: &mut Vec<NotionBlock>, r: RichText)
    ensures
        nblock_views(final(bs)@) == add_to_last(nblock_views(old(bs)@), r@),
{
    let n = bs.len();
    if n > 0 && bs[n - 1].kind != BlockKind::Divider {
        let ghost before = nblock_views(bs@);
        let mut last = bs.pop().unwrap();
        let ghost lv = last@;
        last.rich_text.push(r);
        assert(rich_views(last.rich_text@) =~= lv.rich_text.push(r@));
        bs.push(last);
        assert(nblock_views(bs@) =~= add_to_last(before, r@));
    }
}

/// One more span open.
pub(crate) fn open_one(n: usize) -> (r: usize)
    ensures
        r == deeper(n),
{
    if n < usize::MAX {
        n + 1
    } else {
        n
    }
}

/// One span fewer open.
pub(crate) fn close_one(n: usize) -> (r: usize)
    ensures
        r == shallower(n),
{
    if n > 0 {
        n - 1
    } else {
        0
    }
}

pub(crate) fn plain_text_chars() -> (r: Vec<char>)
    ensures
        r@ == plain_text(),
{
    let v = vec!['p', 'l', 'a', 'i', 'n', ' ', 't', 'e', 'x', 't'];
    assert(v@ =~= plain_text());
    v
}


pub(crate) fn data_text(d: &crate::markdown::EvData) -> (r: Vec<char>)
    ensures
        r@ == text_of(d@),
{
    match d {
        crate::markdown::EvData::Text(t) => chars_of(t.as_str()),
        _ => Vec::new(),
    }
}

impl Conv {
    fn new() -> (c: Self)
        ensures
            c@ == nstart(),
    {
        let c = Conv {
            blocks: Vec::new(),
            para: Vec::new(),
            items: Vec::new(),
            in_code: false,
            in_heading: false,
            in_quote: false,
            code: Vec::new(),
            lang: Vec::new(),
            lists: Vec::new(),
            strong: 0,
            emph: 0,
        };
        assert(c@.blocks =~= Seq::<NBlockV>::empty());
        assert(c@.para =~= Seq::<RichV>::empty());
        assert(c@.items =~= Seq::<NBlockV>::empty());
        c
    }

    fn flush_paragraph(&mut self)
        ensures
            final(self)@ == flush_para(old(self)@),
    {
        if self.para.len() > 0 {
            let mut p: Vec<RichText> = Vec::new();
            std::mem::swap(&mut p, &mut self.para);
            let ghost before = nblock_views(self.blocks@);
            let b = NotionBlock { kind: BlockKind::Paragraph, rich_text: p, language: String::new() };
            assert(b@.language =~= Seq::<char>::empty());
            self.blocks.push(b);
            assert(nblock_views(self.blocks@) =~= before.push(b@));
            assert(rich_views(self.para@) =~= Seq::<RichV>::empty());
        }
    }

    fn flush_items(&mut self)
        ensures
            final(self)@ == flush_list(old(self)@),
    {
        let ghost before = nblock_views(self.blocks@);
        let ghost its = nblock_views(self.items@);
        let mut items: Vec<NotionBlock> = Vec::new();
        std::mem::swap(&mut items, &mut self.items);
        self.blocks.append(&mut items);
        assert(nblock_views(self.blocks@) =~= before + its);
        assert(nblock_views(self.items@) =~= Seq::<NBlockV>::empty());
    }

    fn place(&mut self, r: RichText)
        ensures
            final(self)@ == place_run(old(self)@, r@),
    {
        if self.items.len() > 0 {
            add_run_to_last(&mut self.items, r);
        } else if self.in_heading || self.in_quote {
            add_run_to_last(&mut self.blocks, r);
        } else {
            let ghost before = rich_views(self.para@);
            self.para.push(r);
            assert(rich_views(self.para@) =~= before.push(r@));
        }
    }

    fn push_block(&mut self, b: NotionBlock)
        ensures
            final(self)@ == (NState { blocks: old(self)@.blocks.push(b@), ..old(self)@ }),
    {
        let ghost before = nblock_views(self.blocks@);
        self.blocks.push(b);
        assert(nblock_views(self.blocks@) =~= before.push(b@));
    }

    fn step(&mut self, e: &MdEvent)
        ensures
            final(self)@ == nstep(old(self)@, e@),
    {
        match e.shape {
            EvShape::Start => match e.tag {
                TagKind::Heading => {
                    self.flush_paragraph();
                    let kind = match &e.data {
                        crate::markdown::EvData::Level(1) => BlockKind::Heading1,
                        crate::markdown::EvData::Level(2) => BlockKind::Heading2,
                        _ => BlockKind::Heading3,
                    };
                    self.push_block(new_block(kind));
                    self.in_heading = true;
                },
                TagKind::Paragraph => {
                    self.flush_paragraph();
                },
                TagKind::List => {
                    self.flush_paragraph();
                    let ordered = match &e.data {
                        crate::markdown::EvData::ListStart(Some(_)) => true,
                        _ => false,
                    };
                    self.lists.push(ordered);
                },
                TagKind::Item => {
                    let n = self.lists.len();
                    let kind = if n > 0 && self.lists[n - 1] {
                        BlockKind::NumberedListItem
                    } else {
                        BlockKind::BulletedListItem
                    };
                    let ghost before = nblock_views(self.items@);
                    let b = new_block(kind);
                    self.items.push(b);
                    assert(nblock_views(self.items@) =~= before.push(b@));
                },
                TagKind::CodeBlock => {
                    self.flush_paragraph();
                    self.in_code = true;
                    self.code = Vec::new();
                    self.lang = data_text(&e.data);
                },
                TagKind::BlockQuote => {
                    self.flush_paragraph();
                    self.push_block(new_block(BlockKind::Quote));
                    self.in_quote = true;
                },
                TagKind::Strong => {
                    self.strong = open_one(self.strong);
                },
                TagKind::Emphasis => {
                    self.emph = open_one(self.emph);
                },
                _ => {},
            },
            EvShape::End => match e.tag {
                TagKind::Heading => {
                    self.in_heading = false;
                },
                TagKind::Paragraph => {
                    self.flush_paragraph();
                },
                TagKind::List => {
                    self.flush_items();
                    if self.lists.len() > 0 {
                        let ghost l = self.lists@;
                        self.lists.pop();
                        assert(self.lists@ =~= l.drop_last());
                    }
                },
                TagKind::CodeBlock => {
                    self.in_code = false;
                    let t = trim_end_chars(&self.code);
                    let language = if self.lang.len() == 0 {
                        plain_text_chars()
                    } else {
                        self.lang.clone()
                    };
                    let mut runs: Vec<RichText> = Vec::new();
                    runs.push(RichText { content: string_of(t.as_slice()), code: false, bold: false, italic: false });
                    let b = NotionBlock { kind: BlockKind::Code, rich_text: runs, language: string_of(language.as_slice()) };
                    assert(b@.rich_text =~= seq![plain_run(trim_end(self.code@))]);
                    self.push_block(b);
                    self.code = Vec::new();
                },
                TagKind::BlockQuote => {
                    self.in_quote = false;
                },
                TagKind::Strong => {
                    self.strong = close_one(self.strong);
                },
                TagKind::Emphasis => {
                    self.emph = close_one(self.emph);
                },
                _ => {},
            },
            EvShape::Text => {
                let t = data_text(&e.data);
                if self.in_code {
                    append_chars(&mut self.code, &t);
                } else {
                    self.place(
                        RichText { content: string_of(t.as_slice()), code: false, bold: self.strong > 0, italic: self.emph > 0 },
                    );
                }
            },
            EvShape::Code => {
                let t = data_text(&e.data);
                self.place(
                    RichText { content: string_of(t.as_slice()), code: true, bold: self.strong > 0, italic: self.emph > 0 },
                );
            },
            EvShape::Rule => {
                self.flush_paragraph();
                self.push_block(new_block(BlockKind::Divider));
            },
            EvShape::SoftBreak | EvShape::HardBreak => {
                if !self.in_code {
                    let nl = vec!['\n'];
                    assert(nl@ =~= seq!['\n']);
                    let ghost before = rich_views(self.para@);
                    let r = RichText { content: string_of(nl.as_slice()), code: false, bold: false, italic: false };
                    self.para.push(r);
                    assert(rich_views(self.para@) =~= before.push(r@));
                } else {
                    self.code.push('\n');
                }
            },
            EvShape::Other => {},
        }
    }
}

/// The Notion blocks for a stream of markdown events.
pub fn blocks_from_events(events: &Vec<MdEvent>) -> (r: Vec<NotionBlock>)
    ensures
        nblock_views(r@) == blocks_of(event_views(events@)),
{
    let ghost evs = event_views(events@);
    let mut c = Conv::new();
    let mut i: usize = 0;
    assert(evs.take(0) =~= Seq::<MdEventV>::empty());
    while i < events.len()
        invariant
            i <= events@.len(),
            evs == event_views(events@),
            c@ == nrun(evs.take(i as int)),
        decreases events@.len() - i,
    {
        assert(evs.take(i + 1).drop_last() =~= evs.take(i as int));
        assert(evs.take(i + 1).last() == events@[i as int]@);
        c.step(&events[i]);
        i = i + 1;
    }
    assert(evs.take(events@.len() as int) =~= evs);
    c.flush_paragraph();
    c.flush_items();
    c.blocks
}

/// Convert markdown (CommonMark, no extensions) into Notion blocks.
pub fn markdown_to_notion_blocks(markdown: &str) -> (r: Vec<NotionBlock>)
    ensures
        nblock_views(r@) == blocks_of(md_events(markdown@, false, false)),
{
    let events = markdown_events(markdown, false, false);
    blocks_from_events(&events)
}

} // verus!
