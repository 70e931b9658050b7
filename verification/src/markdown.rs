//! A Markdown message, cut into blocks that can be displayed: code as it is, with its language,
//! and everything else as prose in markup.
use pulldown_cmark::CodeBlockKind::{Fenced, Indented};
use pulldown_cmark::Event::{Code, End, HardBreak, SoftBreak, Start, Text};
use pulldown_cmark::Tag::{CodeBlock, Emphasis, Heading, Item, Strong};
use pulldown_cmark::{Parser, TagEnd};
use vstd::prelude::*;
use crate::markdown::MdEvent::{CloseCode, CloseEmphasis, CloseHeading, CloseItem, CloseParagraph,
    CloseStrong, Inline, LineBreak, OpenCode, OpenEmphasis, OpenHeading, OpenItem, OpenStrong,
    Other, Space, Words};
use crate::markup::{escape_markup, escaped};
use crate::text::{chars_of, is_white, opt_view, string_of, trim_end, trimmed_end,
    trimmed_end_is_clean};

verus! {

/// A part of a message.
#[derive(Debug)]
pub enum Block {
    /// Text in markup.
    Prose(String),
    /// Code, with its language where the message names one.
    Code { lang: Option<String>, text: String },
}

/// What a [`Block`] holds.
pub enum BlockView {
    Prose(Seq<char>),
    Code { lang: Option<Seq<char>>, text: Seq<char> },
}

impl View for Block {
    type V = BlockView;

    open spec fn view(&self) -> BlockView {
        match self {
            Block::Prose(s) => BlockView::Prose(s@),
            Block::Code { lang, text } => BlockView::Code { lang: opt_view(*lang), text: text@ },
        }
    }
}

/// The views of a list of blocks.
pub open spec fn block_views(blocks: Seq<Block>) -> Seq<BlockView> {
    blocks.map_values(|b: Block| b@)
}

/// A piece of a message, as the Markdown parser finds it.
#[derive(Debug)]
pub enum MdEvent {
    /// A code block opens; with a fence, what the fence names.
    OpenCode(Option<String>),
    OpenStrong,
    OpenEmphasis,
    OpenHeading,
    OpenItem,
    CloseCode,
    CloseStrong,
    CloseEmphasis,
    CloseHeading,
    CloseParagraph,
    CloseItem,
    /// Plain text.
    Words(String),
    /// Code inside a line.
    Inline(String),
    /// The end of a line that goes on.
    Space,
    /// The end of a line.
    LineBreak,
    Other,
}

/// What an [`MdEvent`] holds.
pub enum MdEventView {
    OpenCode(Option<Seq<char>>),
    OpenStrong,
    OpenEmphasis,
    OpenHeading,
    OpenItem,
    CloseCode,
    CloseStrong,
    CloseEmphasis,
    CloseHeading,
    CloseParagraph,
    CloseItem,
    Words(Seq<char>),
    Inline(Seq<char>),
    Space,
    LineBreak,
    Other,
}

impl View for MdEvent {
    type V = MdEventView;

    open spec fn view(&self) -> MdEventView {
        match self {
            MdEvent::OpenCode(l) => MdEventView::OpenCode(opt_view(*l)),
            MdEvent::OpenStrong => MdEventView::OpenStrong,
            MdEvent::OpenEmphasis => MdEventView::OpenEmphasis,
            MdEvent::OpenHeading => MdEventView::OpenHeading,
            MdEvent::OpenItem => MdEventView::OpenItem,
            MdEvent::CloseCode => MdEventView::CloseCode,
            MdEvent::CloseStrong => MdEventView::CloseStrong,
            MdEvent::CloseEmphasis => MdEventView::CloseEmphasis,
            MdEvent::CloseHeading => MdEventView::CloseHeading,
            MdEvent::CloseParagraph => MdEventView::CloseParagraph,
            MdEvent::CloseItem => MdEventView::CloseItem,
            MdEvent::Words(s) => MdEventView::Words(s@),
            MdEvent::Inline(s) => MdEventView::Inline(s@),
            MdEvent::Space => MdEventView::Space,
            MdEvent::LineBreak => MdEventView::LineBreak,
            MdEvent::Other => MdEventView::Other,
        }
    }
}

/// The views of a list of pieces.
pub open spec fn md_views(events: Seq<MdEvent>) -> Seq<MdEventView> {
    events.map_values(|e: MdEvent| e@)
}

/// The pieces of a Markdown text.
pub uninterp spec fn markdown_events(markdown: Seq<char>) -> Seq<MdEventView>;

/// Reads `markdown` with the iterator of `pulldown_cmark::Parser::new` and hands out its events in
/// their order. How the text is cut into events is left to the parser.
#[verifier::external_body]
fn read_markdown(markdown: &str) -> (r: Vec<MdEvent>)
    ensures
        md_views(r@) == markdown_events(markdown@),
{
    Parser::new(markdown).map(|event| match event {
        Start(CodeBlock(Fenced(l))) => OpenCode(Some(l.into_string())),
        Start(CodeBlock(Indented)) => OpenCode(None),
        Start(Strong) => OpenStrong, Start(Emphasis) => OpenEmphasis,
        Start(Heading { .. }) => OpenHeading, Start(Item) => OpenItem,
        End(TagEnd::CodeBlock) => CloseCode, End(TagEnd::Strong) => CloseStrong,
        End(TagEnd::Emphasis) => CloseEmphasis, End(TagEnd::Heading(_)) => CloseHeading,
        End(TagEnd::Paragraph) => CloseParagraph, End(TagEnd::Item) => CloseItem,
        Text(t) => Words(t.into_string()), Code(t) => Inline(t.into_string()),
        SoftBreak => Space, HardBreak => LineBreak,
        _ => Other,
    }).collect()
}

// ── Blocks ────────────────────────────────────────────────────────────────────

/// What was read of a message so far.
#[verifier::ext_equal]
pub struct MdView {
    pub blocks: Seq<BlockView>,
    /// The prose that no block holds yet.
    pub prose: Seq<char>,
    /// The code block that is open: its language and its text.
    pub code: Option<(Option<Seq<char>>, Seq<char>)>,
}

/// Nothing read.
pub open spec fn md_start() -> MdView {
    MdView { blocks: seq![], prose: seq![], code: None }
}

/// `m` with its prose in a block, unless that is blank.
pub open spec fn flushed(m: MdView) -> MdView {
    let text = trimmed_end(m.prose);
    MdView {
        blocks: if text.len() == 0 {
            m.blocks
        } else {
            m.blocks.push(BlockView::Prose(text))
        },
        prose: seq![],
        ..m
    }
}

/// `m` with more prose.
pub open spec fn with_prose(m: MdView, s: Seq<char>) -> MdView {
    MdView { prose: m.prose + s, ..m }
}

/// A text without the line feed at its end.
pub open spec fn without_newline(s: Seq<char>) -> Seq<char> {
    if s.len() > 0 && s.last() == '\n' {
        s.drop_last()
    } else {
        s
    }
}

/// The language that a fence names.
pub open spec fn fence_lang(l: Option<Seq<char>>) -> Option<Seq<char>> {
    match l {
        Some(s) => if s.len() == 0 {
            None
        } else {
            Some(s)
        },
        None => None,
    }
}

/// `m` with the next piece. Inside a code block only its text and its end count.
pub open spec fn md_with(m: MdView, e: MdEventView) -> MdView {
    match m.code {
        Some((lang, text)) => match e {
            MdEventView::Words(t) => MdView { code: Some((lang, text + t)), ..m },
            MdEventView::CloseCode => MdView {
                blocks: m.blocks.push(BlockView::Code { lang, text: without_newline(text) }),
                code: None,
                ..m
            },
            _ => m,
        },
        None => match e {
            MdEventView::OpenCode(l) => MdView {
                code: Some((fence_lang(l), seq![])),
                ..flushed(m)
            },
            MdEventView::OpenStrong => with_prose(m, "<b>"@),
            MdEventView::OpenEmphasis => with_prose(m, "<i>"@),
            MdEventView::OpenHeading => with_prose(m, "<b>"@),
            MdEventView::OpenItem => with_prose(m, "• "@),
            MdEventView::CloseStrong => with_prose(m, "</b>"@),
            MdEventView::CloseEmphasis => with_prose(m, "</i>"@),
            MdEventView::CloseHeading => with_prose(m, "</b>\n"@),
            MdEventView::CloseParagraph => with_prose(m, "\n\n"@),
            MdEventView::CloseItem => with_prose(m, "\n"@),
            MdEventView::Words(t) => with_prose(m, escaped(t)),
            MdEventView::Inline(t) => with_prose(m, "<tt>"@ + escaped(t) + "</tt>"@),
            MdEventView::Space => with_prose(m, " "@),
            MdEventView::LineBreak => with_prose(m, "\n"@),
            MdEventView::CloseCode => m,
            MdEventView::Other => m,
        },
    }
}

/// What was read after all of `events`.
pub open spec fn md_after(m: MdView, events: Seq<MdEventView>) -> MdView
    decreases events.len(),
{
    if events.len() == 0 {
        m
    } else {
        md_with(md_after(m, events.drop_last()), events.last())
    }
}

/// The blocks that the pieces of a message make.
pub open spec fn blocks_of(events: Seq<MdEventView>) -> Seq<BlockView> {
    flushed(md_after(md_start(), events)).blocks
}

/// What was read of a message so far.
struct MdReader {
    blocks: Vec<Block>,
    prose: String,
    code: Option<(Option<String>, String)>,
}

impl View for MdReader {
    type V = MdView;

    closed spec fn view(&self) -> MdView {
        MdView {
            blocks: block_views(self.blocks@),
            prose: self.prose@,
            code: match self.code {
                Some((lang, text)) => Some((opt_view(lang), text@)),
                None => None,
            },
        }
    }
}

impl MdReader {
    /// Puts the prose in a block, unless it is blank.
    fn flush(&mut self)
        ensures
            final(self)@ == flushed(old(self)@),
    {
        let ghost before = *self;
        let text = trim_end(self.prose.as_str());
        if !text.as_str().is_empty() {
            let b = Block::Prose(text);
            self.blocks.push(b);
            assert(block_views(self.blocks@) =~= block_views(before.blocks@).push(b@));
        }
        self.prose = String::new();
        assert(self@ =~= flushed(before@));
    }

    /// Takes in the next piece.
    fn read(&mut self, e: &MdEvent)
        ensures
            final(self)@ == md_with(old(self)@, e@),
    {
        let ghost before = self@;
        let mut code: Option<(Option<String>, String)> = None;
        std::mem::swap(&mut code, &mut self.code);
        if let Some((lang, text)) = code {
            match e {
                MdEvent::Words(t) => {
                    let mut text = text;
                    text.push_str(t.as_str());
                    self.code = Some((lang, text));
                },
                MdEvent::CloseCode => {
                    let chars = chars_of(text.as_str());
                    let n = chars.len();
                    let end: usize = if n > 0 && chars[n - 1] == '\n' {
                        n - 1
                    } else {
                        n
                    };
                    let kept = string_of(&chars, 0, end);
                    assert(kept@ =~= without_newline(text@));
                    let ghost blocks = self.blocks@;
                    let b = Block::Code { lang, text: kept };
                    self.blocks.push(b);
                    assert(block_views(self.blocks@) =~= block_views(blocks).push(b@));
                },
                _ => {
                    self.code = Some((lang, text));
                },
            }
            return;
        }
        assert(self@ == before);
        match e {
            MdEvent::OpenCode(l) => {
                self.flush();
                let lang: Option<String> = match l {
                    Some(s) => if s.as_str().is_empty() {
                        None
                    } else {
                        Some(s.clone())
                    },
                    None => None,
                };
                self.code = Some((lang, String::new()));
            },
            MdEvent::OpenStrong => self.prose.push_str("<b>"),
            MdEvent::OpenEmphasis => self.prose.push_str("<i>"),
            MdEvent::OpenHeading => self.prose.push_str("<b>"),
            MdEvent::OpenItem => self.prose.push_str("• "),
            MdEvent::CloseStrong => self.prose.push_str("</b>"),
            MdEvent::CloseEmphasis => self.prose.push_str("</i>"),
            MdEvent::CloseHeading => self.prose.push_str("</b>\n"),
            MdEvent::CloseParagraph => self.prose.push_str("\n\n"),
            MdEvent::CloseItem => self.prose.push_str("\n"),
            MdEvent::Words(t) => self.prose.push_str(escape_markup(t.as_str()).as_str()),
            MdEvent::Inline(t) => {
                self.prose.push_str("<tt>");
                self.prose.push_str(escape_markup(t.as_str()).as_str());
                self.prose.push_str("</tt>");
                assert(self.prose@ =~= before.prose + ("<tt>"@ + escaped(t@) + "</tt>"@));
            },
            MdEvent::Space => self.prose.push_str(" "),
            MdEvent::LineBreak => self.prose.push_str("\n"),
            MdEvent::CloseCode => {},
            MdEvent::Other => {},
        }
    }
}

/// The blocks that the pieces of a message make.
pub fn fold_blocks(events: &Vec<MdEvent>) -> (r: Vec<Block>)
    ensures
        block_views(r@) == blocks_of(md_views(events@)),
{
    let ghost all = md_views(events@);
    let mut reader = MdReader { blocks: Vec::new(), prose: String::new(), code: None };
    assert(reader@ =~= md_start());
    assert(all.take(0) =~= seq![]);
    let mut i: usize = 0;
    while i < events.len()
        invariant
            i <= events.len(),
            all == md_views(events@),
            reader@ == md_after(md_start(), all.take(i as int)),
        decreases events.len() - i,
    {
        assert(all[i as int] == events@[i as int]@);
        reader.read(&events[i]);
        assert(all.take(i + 1).drop_last() =~= all.take(i as int));
        i = i + 1;
    }
    assert(all.take(i as int) =~= all);
    reader.flush();
    reader.blocks
}

/// The blocks of a Markdown message.
pub fn parse_blocks(markdown: &str) -> (r: Vec<Block>)
    ensures
        block_views(r@) == blocks_of(markdown_events(markdown@)),
{
    fold_blocks(&read_markdown(markdown))
}

// ── Laws ──────────────────────────────────────────────────────────────────────

/// Whether a block of prose holds something and does not end in white space.
pub open spec fn block_is_clean(b: BlockView) -> bool {
    match b {
        BlockView::Prose(s) => s.len() > 0 && !is_white(s.last()),
        BlockView::Code { lang, text } => lang matches Some(l) ==> l.len() > 0,
    }
}

proof fn reading_is_clean(events: Seq<MdEventView>)
    ensures
        forall|i: int|
            0 <= i < md_after(md_start(), events).blocks.len() ==> block_is_clean(
                #[trigger] md_after(md_start(), events).blocks[i],
            ),
        md_after(md_start(), events).code matches Some((lang, text)) ==> (lang matches Some(l) ==> l.len() > 0),
    decreases events.len(),
{
    if events.len() > 0 {
        reading_is_clean(events.drop_last());
        let m = md_after(md_start(), events.drop_last());
        trimmed_end_is_clean(m.prose);
    }
}

/// No block of prose is blank or ends in white space, and no code block has an empty language.
pub proof fn blocks_are_clean(events: Seq<MdEventView>, i: int)
    requires
        0 <= i < blocks_of(events).len(),
    ensures
        block_is_clean(blocks_of(events)[i]),
{
    reading_is_clean(events);
    trimmed_end_is_clean(md_after(md_start(), events).prose);
}

/// The text of a list of pieces of code, one behind the other.
pub open spec fn code_text(parts: Seq<Seq<char>>) -> Seq<char>
    decreases parts.len(),
{
    if parts.len() == 0 {
        seq![]
    } else {
        code_text(parts.drop_last()) + parts.last()
    }
}

/// The pieces of a code block.
pub open spec fn code_pieces(parts: Seq<Seq<char>>) -> Seq<MdEventView> {
    parts.map_values(|p: Seq<char>| MdEventView::Words(p))
}

proof fn code_gathers(m: MdView, lang: Option<Seq<char>>, text: Seq<char>, parts: Seq<Seq<char>>)
    requires
        m.code == Some((lang, text)),
    ensures
        md_after(m, code_pieces(parts)) == (MdView {
            code: Some((lang, text + code_text(parts))),
            ..m
        }),
    decreases parts.len(),
{
    if parts.len() == 0 {
        assert(text + code_text(parts) =~= text);
    } else {
        code_gathers(m, lang, text, parts.drop_last());
        assert(code_pieces(parts).drop_last() =~= code_pieces(parts.drop_last()));
        assert(text + code_text(parts.drop_last()) + parts.last() =~= text + code_text(parts));
    }
}

/// Code comes out as it stands in the message, without escapes, in a block of its own behind the
/// prose before it, and without the line feed at its end.
pub proof fn code_is_kept(m: MdView, l: Option<Seq<char>>, parts: Seq<Seq<char>>)
    requires
        m.code is None,
    ensures
        md_with(
            md_after(md_with(m, MdEventView::OpenCode(l)), code_pieces(parts)),
            MdEventView::CloseCode,
        ).blocks == flushed(m).blocks.push(
            BlockView::Code { lang: fence_lang(l), text: without_newline(code_text(parts)) },
        ),
{
    let o = md_with(m, MdEventView::OpenCode(l));
    code_gathers(o, fence_lang(l), seq![], parts);
    assert(Seq::<char>::empty() + code_text(parts) =~= code_text(parts));
}

} // verus!
