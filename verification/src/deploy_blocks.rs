//! Markdown → Notion blocks as `polaris deploy` sends them: headings (three
//! levels), paragraphs, bulleted list items, code blocks with their
//! language, quotes and dividers. Text after a heading or quote block runs
//! on into it until another block opens; inline code lands in the open list
//! item or the paragraph. Runs inside `**strong**` are bold, inside
//! `*emphasis*` italic.

use vstd::prelude::*;
use crate::markdown::{EvShape, TagKind, EvDataV, MdEvent, MdEventV, md_events, event_views, text_of, markdown_events};
use crate::notion::{
    BlockKind, RichText, NotionBlock, RichV, NBlockV, rich_views, nblock_views, empty_block, heading_kind,
    plain_text, new_block, plain_text_chars, data_text, deeper, shallower, text_run, plain_run, open_one, close_one,
};
use crate::lines::{trim_end, trim_end_chars};
use crate::text::{string_of, append_chars};

verus! {

/// Where the conversion is.
pub struct CState {
    pub blocks: Seq<NBlockV>,
    pub para: Seq<RichV>,
    pub items: Seq<NBlockV>,
    pub in_code: bool,
    pub code: Seq<char>,
    pub lang: Seq<char>,
    /// How many strong and emphasis spans are open.
    pub strong: usize,
    pub emph: usize,
}

pub open spec fn cstart() -> CState {
    CState {
        blocks: Seq::empty(),
        para: Seq::empty(),
        items: Seq::empty(),
        in_code: false,
        code: Seq::empty(),
        lang: Seq::empty(),
        strong: 0,
        emph: 0,
    }
}

/// The open paragraph becomes a block.
pub open spec fn cflush_para(s: CState) -> CState {
    if s.para.len() > 0 {
        CState {
            blocks: s.blocks.push(NBlockV { kind: BlockKind::Paragraph, rich_text: s.para, language: Seq::empty() }),
            para: Seq::empty(),
            ..s
        }
    } else {
        s
    }
}

/// The collected list items join the blocks.
pub open spec fn cflush_list(s: CState) -> CState {
    CState { blocks: s.blocks + s.items, items: Seq::empty(), ..s }
}

/// `r` appended to the last of `bs`.
pub open spec fn append_last(bs: Seq<NBlockV>, r: RichV) -> Seq<NBlockV> {
    bs.update(bs.len() - 1, NBlockV { rich_text: bs.last().rich_text.push(r), ..bs.last() })
}

pub open spec fn is_heading(k: BlockKind) -> bool {
    k == BlockKind::Heading1 || k == BlockKind::Heading2 || k == BlockKind::Heading3
}

/// Where a text run goes: the open list item; else the last block when it
/// is a heading or quote; else the paragraph.
pub open spec fn place_text(s: CState, r: RichV) -> CState {
    if s.items.len() > 0 {
        CState { items: append_last(s.items, r), ..s }
    } else if s.blocks.len() > 0 && (is_heading(s.blocks.last().kind) || s.blocks.last().kind
        == BlockKind::Quote) {
        CState { blocks: append_last(s.blocks, r), ..s }
    } else {
        CState { para: s.para.push(r), ..s }
    }
}

/// Where an inline code run goes: the open list item, else the paragraph.
pub open spec fn place_code(s: CState, r: RichV) -> CState {
    if s.items.len() > 0 {
        CState { items: append_last(s.items, r), ..s }
    } else {
        CState { para: s.para.push(r), ..s }
    }
}

/// The conversion's step on one event.
pub open spec fn cstep(s: CState, e: MdEventV) -> CState {
    match e.shape {
        EvShape::Start => match e.tag {
            TagKind::Heading => {
                let f = cflush_para(s);
                CState { blocks: f.blocks.push(empty_block(heading_kind(e.data))), ..f }
            },
            TagKind::Paragraph | TagKind::List => cflush_para(s),
            TagKind::Item => CState { items: s.items.push(empty_block(BlockKind::BulletedListItem)), ..s },
            TagKind::CodeBlock => {
                let f = cflush_para(s);
                CState { in_code: true, code: Seq::empty(), lang: text_of(e.data), ..f }
            },
            TagKind::BlockQuote => {
                let f = cflush_para(s);
                CState { blocks: f.blocks.push(empty_block(BlockKind::Quote)), ..f }
            },
            TagKind::Strong => CState { strong: deeper(s.strong), ..s },
            TagKind::Emphasis => CState { emph: deeper(s.emph), ..s },
            _ => s,
        },
        EvShape::End => match e.tag {
            TagKind::Paragraph => cflush_para(s),
            TagKind::List => cflush_list(s),
            TagKind::CodeBlock => CState {
                in_code: false,
                blocks: s.blocks.push(
                    NBlockV {
                        kind: BlockKind::Code,
                        rich_text: seq![plain_run(trim_end(s.code))],
                        language: if s.lang.len() == 0 {
                            plain_text()
                        } else {
                            s.lang
                        },
                    },
                ),
                code: Seq::empty(),
                ..s
            },
            TagKind::Strong => CState { strong: shallower(s.strong), ..s },
            TagKind::Emphasis => CState { emph: shallower(s.emph), ..s },
            _ => s,
        },
        EvShape::Text => if s.in_code {
            CState { code: s.code + text_of(e.data), ..s }
        } else {
            place_text(s, text_run(text_of(e.data), false, s.strong, s.emph))
        },
        EvShape::Code => place_code(s, text_run(text_of(e.data), true, s.strong, s.emph)),
        EvShape::Rule => {
            let f = cflush_para(s);
            CState { blocks: f.blocks.push(empty_block(BlockKind::Divider)), ..f }
        },
        EvShape::SoftBreak | EvShape::HardBreak => if !s.in_code {
            CState { para: s.para.push(plain_run(seq!['\n'])), ..s }
        } else {
            CState { code: s.code.push('\n'), ..s }
        },
        EvShape::Other => s,
    }
}

pub open spec fn crun(evs: Seq<MdEventV>) -> CState
    decreases evs.len(),
{
    if evs.len() == 0 {
        cstart()
    } else {
        cstep(crun(evs.drop_last()), evs.last())
    }
}

/// The blocks for `evs`: the run, then the open paragraph and list items.
pub open spec fn cblocks_of(evs: Seq<MdEventV>) -> Seq<NBlockV> {
    cflush_list(cflush_para(crun(evs))).blocks
}

struct Conv {
    blocks: Vec<NotionBlock>,
    para: Vec<RichText>,
    items: Vec<NotionBlock>,
    in_code: bool,
    code: Vec<char>,
    lang: Vec<char>,
    strong: usize,
    emph: usize,
}

impl View for Conv {
    type V = CState;

    closed spec fn view(&self) -> CState {
        CState {
            blocks: nblock_views(self.blocks@),
            para: rich_views(self.para@),
            items: nblock_views(self.items@),
            in_code: self.in_code,
            code: self.code@,
            lang: self.lang@,
            strong: self.strong,
            emph: self.emph,
        }
    }
}

fn append_to_last(bs: &mut Vec<NotionBlock>, r: RichText)
    requires
        old(bs)@.len() > 0,
    ensures
        nblock_views(final(bs)@) == append_last(nblock_views(old(bs)@), r@),
{
    let ghost before = nblock_views(bs@);
    let mut last = bs.pop().unwrap();
    let ghost lv = last@;
    last.rich_text.push(r);
    assert(rich_views(last.rich_text@) =~= lv.rich_text.push(r@));
    bs.push(last);
    assert(nblock_views(bs@) =~= append_last(before, r@));
}

impl Conv {
    fn new() -> (c: Self)
        ensures
            c@ == cstart(),
    {
        let c = Conv {
            blocks: Vec::new(),
            para: Vec::new(),
            items: Vec::new(),
            in_code: false,
            code: Vec::new(),
            lang: Vec::new(),
            strong: 0,
            emph: 0,
        };
        assert(c@.blocks =~= Seq::<NBlockV>::empty());
        assert(c@.para =~= Seq::<RichV>::empty());
        assert(c@.items =~= Seq::<NBlockV>::empty());
        c
    }

    fn flush_paragraph(&mut self)
        ensures
            final(self)@ == cflush_para(old(self)@),
    {
        if self.para.len() > 0 {
            let mut p: Vec<RichText> = Vec::new();
            std::mem::swap(&mut p, &mut self.para);
            let ghost before = nblock_views(self.blocks@);
            let b = NotionBlock { kind: BlockKind::Paragraph, rich_text: p, language: String::new() };
            assert(b@.language =~= Seq::<char>::empty());
            self.blocks.push(b);
            assert(nblock_views(self.blocks@) =~= before.push(b@));
            assert(rich_views(self.para@) =~= Seq::<RichV>::empty());
        }
    }

    fn flush_items(&mut self)
        ensures
            final(self)@ == cflush_list(old(self)@),
    {
        let ghost before = nblock_views(self.blocks@);
        let ghost its = nblock_views(self.items@);
        let mut items: Vec<NotionBlock> = Vec::new();
        std::mem::swap(&mut items, &mut self.items);
        self.blocks.append(&mut items);
        assert(nblock_views(self.blocks@) =~= before + its);
        assert(nblock_views(self.items@) =~= Seq::<NBlockV>::empty());
    }

    fn push_para(&mut self, r: RichText)
        ensures
            final(self)@ == (CState { para: old(self)@.para.push(r@), ..old(self)@ }),
    {
        let ghost before = rich_views(self.para@);
        self.para.push(r);
        assert(rich_views(self.para@) =~= before.push(r@));
    }

    fn push_block(&mut self, b: NotionBlock)
        ensures
            final(self)@ == (CState { blocks: old(self)@.blocks.push(b@), ..old(self)@ }),
    {
        let ghost before = nblock_views(self.blocks@);
        self.blocks.push(b);
        assert(nblock_views(self.blocks@) =~= before.push(b@));
    }

    fn place_text_run(&mut self, r: RichText)
        ensures
            final(self)@ == place_text(old(self)@, r@),
    {
        let n = self.blocks.len();
        if self.items.len() > 0 {
            append_to_last(&mut self.items, r);
        } else if n > 0 && (self.blocks[n - 1].kind == BlockKind::Heading1 || self.blocks[n - 1].kind
            == BlockKind::Heading2 || self.blocks[n - 1].kind == BlockKind::Heading3
            || self.blocks[n - 1].kind == BlockKind::Quote) {
            append_to_last(&mut self.blocks, r);
        } else {
            self.push_para(r);
        }
    }

    fn place_code_run(&mut self, r: RichText)
        ensures
            final(self)@ == place_code(old(self)@, r@),
    {
        if self.items.len() > 0 {
            append_to_last(&mut self.items, r);
        } else {
            self.push_para(r);
        }
    }

    fn step(&mut self, e: &MdEvent)
        ensures
            final(self)@ == cstep(old(self)@, e@),
    {
        match e.shape {
            EvShape::Start => match e.tag {
                TagKind::Heading => {
                    self.flush_paragraph();
                    let kind = match &e.data {
                        crate::markdown::EvData::Level(1) => BlockKind::Heading1,
                        crate::markdown::EvData::Level(2) => BlockKind::Heading2,
                        _ => BlockKind::Heading3,
                    };
                    self.push_block(new_block(kind));
                },
                TagKind::Paragraph | TagKind::List => {
                    self.flush_paragraph();
                },
                TagKind::Item => {
                    let ghost before = nblock_views(self.items@);
                    let b = new_block(BlockKind::BulletedListItem);
                    self.items.push(b);
                    assert(nblock_views(self.items@) =~= before.push(b@));
                },
                TagKind::CodeBlock => {
                    self.flush_paragraph();
                    self.in_code = true;
                    self.code = Vec::new();
                    self.lang = data_text(&e.data);
                },
                TagKind::BlockQuote => {
                    self.flush_paragraph();
                    self.push_block(new_block(BlockKind::Quote));
                },
                TagKind::Strong => {
                    self.strong = open_one(self.strong);
                },
                TagKind::Emphasis => {
                    self.emph = open_one(self.emph);
                },
                _ => {},
            },
            EvShape::End => match e.tag {
                TagKind::Paragraph => {
                    self.flush_paragraph();
                },
                TagKind::List => {
                    self.flush_items();
                },
                TagKind::CodeBlock => {
                    self.in_code = false;
                    let t = trim_end_chars(&self.code);
                    let language = if self.lang.len() == 0 {
                        plain_text_chars()
                    } else {
                        self.lang.clone()
                    };
                    let mut runs: Vec<RichText> = Vec::new();
                    runs.push(RichText { content: string_of(t.as_slice()), code: false, bold: false, italic: false });
                    let b = NotionBlock { kind: BlockKind::Code, rich_text: runs, language: string_of(language.as_slice()) };
                    assert(b@.rich_text =~= seq![plain_run(trim_end(self.code@))]);
                    self.push_block(b);
                    self.code = Vec::new();
                },
                TagKind::Strong => {
                    self.strong = close_one(self.strong);
                },
                TagKind::Emphasis => {
                    self.emph = close_one(self.emph);
                },
                _ => {},
            },
            EvShape::Text => {
                let t = data_text(&e.data);
                if self.in_code {
                    append_chars(&mut self.code, &t);
                } else {
                    self.place_text_run(
                        RichText { content: string_of(t.as_slice()), code: false, bold: self.strong > 0, italic: self.emph > 0 },
                    );
                }
            },
            EvShape::Code => {
                let t = data_text(&e.data);
                self.place_code_run(
                    RichText { content: string_of(t.as_slice()), code: true, bold: self.strong > 0, italic: self.emph > 0 },
                );
            },
            EvShape::Rule => {
                self.flush_paragraph();
                self.push_block(new_block(BlockKind::Divider));
            },
            EvShape::SoftBreak | EvShape::HardBreak => {
                if !self.in_code {
                    let nl = vec!['\n'];
                    assert(nl@ =~= seq!['\n']);
                    self.push_para(RichText { content: string_of(nl.as_slice()), code: false, bold: false, italic: false });
                } else {
                    self.code.push('\n');
                }
            },
            EvShape::Other => {},
        }
    }
}

/// The blocks `polaris deploy` sends for a stream of markdown events.
pub fn deploy_blocks_from_events(events: &Vec<MdEvent>) -> (r: Vec<NotionBlock>)
    ensures
        nblock_views(r@) == cblocks_of(event_views(events@)),
{
    let ghost evs = event_views(events@);
    let mut c = Conv::new();
    let mut i: usize = 0;
    assert(evs.take(0) =~= Seq::<MdEventV>::empty());
    while i < events.len()
        invariant
            i <= events@.len(),
            evs == event_views(events@),
            c@ == crun(evs.take(i as int)),
        decreases events@.len() - i,
    {
        assert(evs.take(i + 1).drop_last() =~= evs.take(i as int));
        assert(evs.take(i + 1).last() == events@[i as int]@);
        c.step(&events[i]);
        i = i + 1;
    }
    assert(evs.take(events@.len() as int) =~= evs);
    c.flush_paragraph();
    c.flush_items();
    c.blocks
}

/// Convert markdown (CommonMark, no extensions) into the blocks `polaris
/// deploy` sends.
pub fn markdown_to_notion_blocks(markdown: &str) -> (r: Vec<NotionBlock>)
    ensures
        nblock_views(r@) == cblocks_of(md_events(markdown@, false, false)),
{
    let events = markdown_events(markdown, false, false);
    deploy_blocks_from_events(&events)
}

} // verus!
