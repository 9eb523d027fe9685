//! The block view of a markdown text: headings, paragraphs, quotes, rules,
//! code and diagram blocks, display math, tables, list items, and spacers
//! for the blank lines between top-level blocks.
//!
//! pulldown-cmark turns the text into events, each with the byte range of
//! the source it covers; the block structure is decided here, one event at
//! a time, by [`md_step`]. Inline content is kept as markdown (`rich`), for
//! the shell to render as styled text.

use crate::main_content::assistant_messages::cmark::{
    cmark_offset_events, cmark_parse_offsets, MdAlign, MdEvent, MdTag, MdTagEnd, BLOCK_OPTIONS,
};
use crate::main_content::assistant_messages::inline::{code_span, code_span_markdown, escape_link, escape_link_destination};
use crate::text::{
    chars_of, i64_text, int_text, str_eq, lower_chars, lower_seq, push_all, push_str_chars, string_of,
    trim, trim_chars,
};
use vstd::prelude::*;
use vstd::string::StringSliceAdditionalSpecFns;
use crate::main_content::markdown::{
    display_blocks, group_legacy_work_items, lemma_resp_views_index, lemma_resp_views_len, resp_view,
    resp_views, ParsedMarkdownItem, RespView,
};

verus! {

// ---------------------------------------------------------------------------
// Blocks
// ---------------------------------------------------------------------------

/// The kind of a block.
#[derive(Debug, Clone, Copy, PartialEq, Eq, Structural)]
pub enum BlockKind {
    Heading,
    Paragraph,
    BlockQuote,
    Rule,
    CodeBlock,
    Mermaid,
    DisplayMath,
    Table,
    ListItem,
    /// Blank lines between two top-level blocks; `level` says how many.
    Spacer,
}

/// A table cell: its text as markdown, its column's alignment (0 none,
/// 1 left, 2 centre, 3 right) and whether it is in the header row.
#[derive(Debug)]
pub struct TableCellBlock {
    pub text: String,
    pub alignment: i32,
    pub is_header: bool,
}

#[derive(Debug)]
pub struct TableRowBlock {
    pub cells: Vec<TableCellBlock>,
    pub is_header: bool,
}

/// One block of a markdown text.
#[derive(Debug)]
pub struct MarkdownBlock {
    pub kind: BlockKind,
    /// The plain text: the source of code, diagrams and math, the text of
    /// list items, the markdown of headings, paragraphs and quotes.
    pub text: String,
    /// The inline content as markdown.
    pub rich: String,
    /// The heading level, or the number of blank lines of a spacer.
    pub level: i32,
    /// The nesting depth of a list item or quote.
    pub depth: i32,
    pub is_ordered: bool,
    /// The number of an ordered list item, such as `3.`.
    pub prefix: String,
    pub is_task: bool,
    pub is_checked: bool,
    /// The upper-cased info string of a code block; `MERMAID` for diagrams.
    pub language: String,
    pub rows: Vec<TableRowBlock>,
}

pub struct CellView {
    pub text: Seq<char>,
    pub alignment: i32,
    pub is_header: bool,
}

pub struct RowView {
    pub cells: Seq<CellView>,
    pub is_header: bool,
}

pub struct BlockView {
    pub kind: BlockKind,
    pub text: Seq<char>,
    pub rich: Seq<char>,
    pub level: i32,
    pub depth: i32,
    pub is_ordered: bool,
    pub prefix: Seq<char>,
    pub is_task: bool,
    pub is_checked: bool,
    pub language: Seq<char>,
    pub rows: Seq<RowView>,
}

impl View for TableCellBlock {
    type V = CellView;

    open spec fn view(&self) -> CellView {
        CellView { text: self.text@, alignment: self.alignment, is_header: self.is_header }
    }
}

pub open spec fn cells_view(v: Seq<TableCellBlock>) -> Seq<CellView> {
    v.map_values(|c: TableCellBlock| c@)
}

impl View for TableRowBlock {
    type V = RowView;

    open spec fn view(&self) -> RowView {
        RowView { cells: cells_view(self.cells@), is_header: self.is_header }
    }
}

pub open spec fn rows_view(v: Seq<TableRowBlock>) -> Seq<RowView> {
    v.map_values(|r: TableRowBlock| r@)
}

impl View for MarkdownBlock {
    type V = BlockView;

    open spec fn view(&self) -> BlockView {
        BlockView {
            kind: self.kind,
            text: self.text@,
            rich: self.rich@,
            level: self.level,
            depth: self.depth,
            is_ordered: self.is_ordered,
            prefix: self.prefix@,
            is_task: self.is_task,
            is_checked: self.is_checked,
            language: self.language@,
            rows: rows_view(self.rows@),
        }
    }
}

pub open spec fn blocks_view(v: Seq<MarkdownBlock>) -> Seq<BlockView> {
    v.map_values(|b: MarkdownBlock| b@)
}

/// A block of the given kind with every other field empty.
pub open spec fn block_of(kind: BlockKind) -> BlockView {
    BlockView {
        kind,
        text: seq![],
        rich: seq![],
        level: 0,
        depth: 0,
        is_ordered: false,
        prefix: seq![],
        is_task: false,
        is_checked: false,
        language: seq![],
        rows: seq![],
    }
}

// ---------------------------------------------------------------------------
// The parser's state and its step
// ---------------------------------------------------------------------------

/// An open list: whether it is ordered, and the number of its next item.
#[derive(Debug, Clone, Copy)]
pub struct ListFrame {
    pub is_ordered: bool,
    pub index: i32,
}

/// An open list item, gathering its content.
pub struct ItemView {
    /// Where its block stands.
    pub element_index: usize,
    pub depth: i32,
    pub is_ordered: bool,
    pub prefix: Seq<char>,
    pub is_task: bool,
    pub is_checked: bool,
    pub rich: Seq<char>,
    pub plain: Seq<char>,
}

/// What the parser holds between two events.
pub struct MdView {
    pub blocks: Seq<BlockView>,
    pub heading_level: i32,
    pub in_heading: bool,
    pub in_paragraph: bool,
    pub bq_depth: usize,
    pub bq_max: usize,
    pub link_url: Seq<char>,
    pub in_link: bool,
    /// The inline markdown of the open heading, paragraph, quote or cell.
    pub rich: Seq<char>,
    pub lists: Seq<ListFrame>,
    pub items: Seq<ItemView>,
    pub aligns: Seq<i32>,
    pub rows: Seq<RowView>,
    pub cells: Seq<CellView>,
    pub row_header: bool,
    pub align_idx: usize,
    pub in_table: bool,
    pub in_head: bool,
    pub in_cell: bool,
    pub in_code: bool,
    pub language: Seq<char>,
    pub code: Seq<char>,
    /// Where the last top-level block ended, as a byte offset.
    pub last_pos: usize,
}

pub open spec fn md_init() -> MdView {
    MdView {
        blocks: seq![],
        heading_level: 1,
        in_heading: false,
        in_paragraph: false,
        bq_depth: 0,
        bq_max: 0,
        link_url: seq![],
        in_link: false,
        rich: seq![],
        lists: seq![],
        items: seq![],
        aligns: seq![],
        rows: seq![],
        cells: seq![],
        row_header: false,
        align_idx: 0,
        in_table: false,
        in_head: false,
        in_cell: false,
        in_code: false,
        language: seq![],
        code: seq![],
        last_pos: 0,
    }
}

/// Outside lists, tables, code blocks and quotes.
pub open spec fn top_level(s: MdView) -> bool {
    s.lists.len() == 0 && !s.in_table && !s.in_code && s.bq_depth == 0
}

/// Whether inline content goes to `rich`.
pub open spec fn takes_inline(s: MdView) -> bool {
    s.in_heading || s.in_paragraph || s.in_cell || s.bq_depth > 0
}

/// Inline content: to the innermost open list item, else to the open
/// heading, paragraph, cell or quote; nowhere otherwise.
pub open spec fn add_inline(s: MdView, rich: Seq<char>, plain: Seq<char>) -> MdView {
    if s.items.len() > 0 {
        let f = s.items.last();
        MdView {
            items: s.items.update(
                s.items.len() - 1,
                ItemView { rich: f.rich + rich, plain: f.plain + plain, ..f },
            ),
            ..s
        }
    } else if takes_inline(s) {
        MdView { rich: s.rich + rich, ..s }
    } else {
        s
    }
}

/// The line feeds in `b`.
pub open spec fn newlines(b: Seq<u8>) -> nat
    decreases b.len(),
{
    if b.len() == 0 {
        0
    } else {
        newlines(b.drop_last()) + if b.last() == 10 {
            1nat
        } else {
            0nat
        }
    }
}

pub open spec fn capped(n: nat) -> i32 {
    if n > i32::MAX {
        i32::MAX
    } else {
        n as i32
    }
}

pub open spec fn sat_inc(d: usize) -> usize {
    if d < usize::MAX {
        (d + 1) as usize
    } else {
        d
    }
}

/// A spacer for the blank lines between the last top-level block and a
/// block starting at byte `start`: one per line feed in the source between
/// them.
pub open spec fn spacer(blocks: Seq<BlockView>, last: usize, start: usize, bytes: Seq<u8>) -> Seq<
    BlockView,
> {
    if start > last && last < bytes.len() {
        let end = if start < bytes.len() {
            start as int
        } else {
            bytes.len() as int
        };
        let n = newlines(bytes.subrange(last as int, end));
        if n > 0 {
            blocks.push(BlockView { level: capped(n), ..block_of(BlockKind::Spacer) })
        } else {
            blocks
        }
    } else {
        blocks
    }
}

pub open spec fn with_spacer(s: MdView, start: usize, bytes: Seq<u8>) -> MdView {
    MdView { blocks: spacer(s.blocks, s.last_pos, start, bytes), ..s }
}

/// A block of `kind` with the markdown `md` as text, unless `md` is empty;
/// it then ends the top-level run at `end`.
pub open spec fn push_text_block(s: MdView, kind: BlockKind, md: Seq<char>, level: i32, depth: i32, end: usize) -> MdView {
    if md.len() > 0 {
        MdView {
            blocks: s.blocks.push(BlockView { text: md, rich: md, level, depth, ..block_of(kind) }),
            last_pos: end,
            ..s
        }
    } else {
        s
    }
}

pub open spec fn start_quote(s: MdView, start: usize, bytes: Seq<u8>) -> MdView {
    let s1 = if s.bq_depth == 0 && s.lists.len() == 0 && !s.in_table && !s.in_code {
        MdView { rich: seq![], bq_max: 0, ..with_spacer(s, start, bytes) }
    } else {
        s
    };
    let d = sat_inc(s1.bq_depth);
    MdView {
        bq_depth: d,
        bq_max: if d > s1.bq_max {
            d
        } else {
            s1.bq_max
        },
        ..s1
    }
}

pub open spec fn end_quote(s: MdView, end: usize) -> MdView {
    if s.bq_depth > 0 {
        if s.bq_depth == 1 {
            let depth = capped(if s.bq_max > 0 {
                (s.bq_max - 1) as nat
            } else {
                0
            });
            MdView {
                bq_depth: 0,
                rich: seq![],
                ..push_text_block(s, BlockKind::BlockQuote, trim(s.rich), 0, depth, end)
            }
        } else {
            MdView { bq_depth: (s.bq_depth - 1) as usize, ..s }
        }
    } else {
        s
    }
}

pub open spec fn heading_int(l: u32) -> i32 {
    if l <= i32::MAX {
        l as i32
    } else {
        i32::MAX
    }
}

pub open spec fn start_heading(s: MdView, l: u32, start: usize, bytes: Seq<u8>) -> MdView {
    let s1 = if top_level(s) {
        with_spacer(s, start, bytes)
    } else {
        s
    };
    MdView { in_heading: true, heading_level: heading_int(l), rich: seq![], ..s1 }
}

pub open spec fn end_heading(s: MdView, end: usize) -> MdView {
    if s.in_heading {
        MdView {
            in_heading: false,
            rich: seq![],
            ..push_text_block(s, BlockKind::Heading, trim(s.rich), s.heading_level, 0, end)
        }
    } else {
        s
    }
}

pub open spec fn start_paragraph(s: MdView, start: usize, bytes: Seq<u8>) -> MdView {
    if top_level(s) {
        MdView { in_paragraph: true, rich: seq![], ..with_spacer(s, start, bytes) }
    } else {
        s
    }
}

pub open spec fn end_paragraph(s: MdView, end: usize) -> MdView {
    if s.in_paragraph && top_level(s) {
        MdView {
            in_paragraph: false,
            rich: seq![],
            ..push_text_block(s, BlockKind::Paragraph, trim(s.rich), 0, 0, end)
        }
    } else {
        s
    }
}

pub open spec fn rule(s: MdView, start: usize, end: usize, bytes: Seq<u8>) -> MdView {
    if top_level(s) {
        let s1 = with_spacer(s, start, bytes);
        MdView {
            blocks: s1.blocks.push(BlockView { text: "---"@, ..block_of(BlockKind::Rule) }),
            last_pos: end,
            ..s1
        }
    } else {
        s
    }
}

pub open spec fn start_code(s: MdView, info: Option<Seq<char>>, start: usize, bytes: Seq<u8>) -> MdView {
    let s1 = if s.lists.len() == 0 && !s.in_table && s.bq_depth == 0 {
        with_spacer(s, start, bytes)
    } else {
        s
    };
    MdView {
        in_code: true,
        language: match info {
            Some(i) => i,
            None => seq![],
        },
        code: seq![],
        ..s1
    }
}

/// The Unicode upper-case form of `s`, as `str::to_uppercase` gives it.
pub uninterp spec fn uppercase_of(s: Seq<char>) -> Seq<char>;

/// `str::to_uppercase`. Claimed: the result is `uppercase_of(s)`.
#[verifier::external_body]
fn uppercase(s: &str) -> (r: String)
    ensures
        r@ == uppercase_of(s@),
{
    s.to_uppercase()
}

/// The block a closed code block becomes: a diagram for the `mermaid` info
/// string in any ASCII case, else code labelled with its upper-cased info
/// string.
pub open spec fn code_block_of(code: Seq<char>, language: Seq<char>) -> BlockView {
    if lower_seq(language) == "mermaid"@ {
        BlockView { text: code, language: "MERMAID"@, ..block_of(BlockKind::Mermaid) }
    } else {
        BlockView {
            text: code,
            language: if language.len() == 0 {
                seq![]
            } else {
                uppercase_of(language)
            },
            ..block_of(BlockKind::CodeBlock)
        }
    }
}

pub open spec fn end_code(s: MdView, end: usize) -> MdView {
    if s.in_code {
        MdView {
            in_code: false,
            blocks: s.blocks.push(code_block_of(s.code, s.language)),
            last_pos: end,
            ..s
        }
    } else {
        s
    }
}

pub open spec fn start_link(s: MdView, url: Seq<char>) -> MdView {
    add_inline(MdView { in_link: true, link_url: url, ..s }, "["@, seq![])
}

pub open spec fn end_link(s: MdView) -> MdView {
    if s.in_link {
        let close = "]("@ + escape_link(s.link_url) + ")"@;
        MdView { link_url: seq![], ..add_inline(MdView { in_link: false, ..s }, close, seq![]) }
    } else {
        s
    }
}

pub open spec fn display_math(s: MdView, e: Seq<char>, start: usize, end: usize, bytes: Seq<u8>) -> MdView {
    if top_level(s) {
        let s1 = with_spacer(s, start, bytes);
        MdView {
            blocks: s1.blocks.push(
                BlockView { text: e, rich: code_span(e), ..block_of(BlockKind::DisplayMath) },
            ),
            last_pos: end,
            ..s1
        }
    } else {
        s
    }
}

pub open spec fn align_int(a: MdAlign) -> i32 {
    match a {
        MdAlign::Unspecified => 0,
        MdAlign::Left => 1,
        MdAlign::Center => 2,
        MdAlign::Right => 3,
    }
}

pub open spec fn start_table(s: MdView, aligns: Seq<MdAlign>, start: usize, bytes: Seq<u8>) -> MdView {
    let s1 = if s.lists.len() == 0 && !s.in_code && s.bq_depth == 0 {
        with_spacer(s, start, bytes)
    } else {
        s
    };
    MdView { in_table: true, aligns: aligns.map_values(|a: MdAlign| align_int(a)), rows: seq![], ..s1 }
}

/// The cells gathered so far become a row, unless there are none.
pub open spec fn flush_row(s: MdView) -> MdView {
    if s.cells.len() > 0 {
        MdView {
            rows: s.rows.push(RowView { cells: s.cells, is_header: s.row_header }),
            cells: seq![],
            ..s
        }
    } else {
        s
    }
}

pub open spec fn end_table(s: MdView, end: usize) -> MdView {
    if s.in_table {
        let s1 = flush_row(s);
        MdView {
            in_table: false,
            blocks: s1.blocks.push(BlockView { rows: s1.rows, ..block_of(BlockKind::Table) }),
            rows: seq![],
            last_pos: end,
            ..s1
        }
    } else {
        s
    }
}

pub open spec fn end_cell(s: MdView) -> MdView {
    let align = if (s.align_idx as int) < s.aligns.len() {
        s.aligns[s.align_idx as int]
    } else {
        0
    };
    MdView {
        in_cell: false,
        align_idx: sat_inc(s.align_idx),
        cells: s.cells.push(CellView { text: trim(s.rich), alignment: align, is_header: s.row_header }),
        rich: seq![],
        ..s
    }
}

pub open spec fn start_list(s: MdView, first: Option<u64>, start: usize, bytes: Seq<u8>) -> MdView {
    let s1 = if top_level(s) {
        with_spacer(s, start, bytes)
    } else {
        s
    };
    MdView {
        lists: s1.lists.push(
            ListFrame {
                is_ordered: first is Some,
                index: match first {
                    Some(n) => n as i32,
                    None => 1,
                },
            },
        ),
        ..s1
    }
}

pub open spec fn end_list(s: MdView, end: usize) -> MdView {
    let s1 = MdView {
        lists: if s.lists.len() > 0 {
            s.lists.drop_last()
        } else {
            s.lists
        },
        ..s
    };
    if top_level(s1) {
        MdView { last_pos: end, ..s1 }
    } else {
        s1
    }
}

/// The nesting depth of an item in the `n`-th open list.
pub open spec fn item_depth(n: nat) -> i32 {
    if n == 0 {
        0
    } else {
        capped((n - 1) as nat)
    }
}

/// An item opens: its block is placed now and filled in when it closes.
/// Items of ordered lists are numbered from the list's start.
pub open spec fn start_item(s: MdView) -> MdView {
    let depth = item_depth(s.lists.len());
    let ordered = s.lists.len() > 0 && s.lists.last().is_ordered;
    let prefix = if ordered {
        int_text(s.lists.last().index as int) + "."@
    } else {
        seq![]
    };
    let lists = if ordered {
        let f = s.lists.last();
        s.lists.update(
            s.lists.len() - 1,
            ListFrame {
                index: if f.index < i32::MAX {
                    (f.index + 1) as i32
                } else {
                    f.index
                },
                ..f
            },
        )
    } else {
        s.lists
    };
    MdView {
        lists,
        blocks: s.blocks.push(
            BlockView { is_ordered: ordered, prefix, depth, ..block_of(BlockKind::ListItem) },
        ),
        items: s.items.push(
            ItemView {
                element_index: s.blocks.len() as usize,
                depth,
                is_ordered: ordered,
                prefix,
                is_task: false,
                is_checked: false,
                rich: seq![],
                plain: seq![],
            },
        ),
        ..s
    }
}

pub open spec fn item_block(f: ItemView) -> BlockView {
    BlockView {
        text: trim(f.plain),
        rich: trim(f.rich),
        is_ordered: f.is_ordered,
        prefix: f.prefix,
        is_task: f.is_task,
        is_checked: f.is_checked,
        depth: f.depth,
        ..block_of(BlockKind::ListItem)
    }
}

pub open spec fn end_item(s: MdView) -> MdView {
    if s.items.len() > 0 {
        let f = s.items.last();
        MdView {
            items: s.items.drop_last(),
            blocks: if (f.element_index as int) < s.blocks.len() {
                s.blocks.update(f.element_index as int, item_block(f))
            } else {
                s.blocks
            },
            ..s
        }
    } else {
        s
    }
}

pub open spec fn task_marker(s: MdView, checked: bool) -> MdView {
    if s.items.len() > 0 {
        let f = s.items.last();
        MdView {
            items: s.items.update(
                s.items.len() - 1,
                ItemView { is_task: true, is_checked: checked, ..f },
            ),
            ..s
        }
    } else {
        s
    }
}

/// Text goes to the open code block, else it is inline content.
pub open spec fn text_event(s: MdView, t: Seq<char>) -> MdView {
    if s.in_code {
        MdView { code: s.code + t, ..s }
    } else {
        add_inline(s, t, t)
    }
}

pub open spec fn code_event(s: MdView, c: Seq<char>) -> MdView {
    if s.in_code {
        MdView { code: s.code + c, ..s }
    } else {
        add_inline(s, code_span(c), c)
    }
}

pub open spec fn break_event(s: MdView) -> MdView {
    if s.in_code {
        MdView { code: s.code.push('\n'), ..s }
    } else {
        add_inline(s, seq!['\n'], seq!['\n'])
    }
}

/// The parser's state after the event `ev`, covering bytes `start..end` of
/// the source `bytes`.
pub open spec fn md_step(s: MdView, ev: MdEvent, start: usize, end: usize, bytes: Seq<u8>) -> MdView {
    match ev {
        MdEvent::Start(tag) => match tag {
            MdTag::BlockQuote => start_quote(s, start, bytes),
            MdTag::Heading(l) => start_heading(s, l, start, bytes),
            MdTag::Paragraph => start_paragraph(s, start, bytes),
            MdTag::CodeBlock(info) => start_code(
                s,
                match info {
                    Some(i) => Some(i@),
                    None => None,
                },
                start,
                bytes,
            ),
            MdTag::Link(url) => start_link(s, url@),
            MdTag::Table(aligns) => start_table(s, aligns@, start, bytes),
            MdTag::TableHead => MdView {
                in_head: true,
                row_header: true,
                cells: seq![],
                align_idx: 0,
                ..s
            },
            MdTag::TableRow => MdView { cells: seq![], row_header: s.in_head, align_idx: 0, ..s },
            MdTag::TableCell => MdView { in_cell: true, rich: seq![], ..s },
            MdTag::List(first) => start_list(s, first, start, bytes),
            MdTag::Item => start_item(s),
            MdTag::Strong => add_inline(s, "**"@, seq![]),
            MdTag::Emphasis => add_inline(s, "*"@, seq![]),
            MdTag::Strikethrough => add_inline(s, "~~"@, seq![]),
            _ => s,
        },
        MdEvent::End(tag) => match tag {
            MdTagEnd::BlockQuote => end_quote(s, end),
            MdTagEnd::Heading => end_heading(s, end),
            MdTagEnd::Paragraph => end_paragraph(s, end),
            MdTagEnd::CodeBlock => end_code(s, end),
            MdTagEnd::Link => end_link(s),
            MdTagEnd::Table => end_table(s, end),
            MdTagEnd::TableHead => MdView { in_head: false, ..flush_row(s) },
            MdTagEnd::TableRow => flush_row(s),
            MdTagEnd::TableCell => end_cell(s),
            MdTagEnd::List => end_list(s, end),
            MdTagEnd::Item => end_item(s),
            MdTagEnd::Strong => add_inline(s, "**"@, seq![]),
            MdTagEnd::Emphasis => add_inline(s, "*"@, seq![]),
            MdTagEnd::Strikethrough => add_inline(s, "~~"@, seq![]),
            _ => s,
        },
        MdEvent::Rule => rule(s, start, end, bytes),
        MdEvent::InlineMath(e) => add_inline(s, code_span(e@), e@),
        MdEvent::DisplayMath(e) => display_math(s, e@, start, end, bytes),
        MdEvent::TaskListMarker(c) => task_marker(s, c),
        MdEvent::Text(t) => text_event(s, t@),
        MdEvent::Code(c) => code_event(s, c@),
        MdEvent::SoftBreak | MdEvent::HardBreak => break_event(s),
        _ => s,
    }
}

/// The state after the events `evs`.
pub open spec fn md_fold(evs: Seq<(MdEvent, usize, usize)>, bytes: Seq<u8>) -> MdView
    decreases evs.len(),
{
    if evs.len() == 0 {
        md_init()
    } else {
        let (ev, start, end) = evs.last();
        md_step(md_fold(evs.drop_last(), bytes), ev, start, end, bytes)
    }
}

pub open spec fn drop_leading_spacers(b: Seq<BlockView>) -> Seq<BlockView>
    decreases b.len(),
{
    if b.len() > 0 && b[0].kind == BlockKind::Spacer {
        drop_leading_spacers(b.drop_first())
    } else {
        b
    }
}

pub open spec fn drop_trailing_spacers(b: Seq<BlockView>) -> Seq<BlockView>
    decreases b.len(),
{
    if b.len() > 0 && b.last().kind == BlockKind::Spacer {
        drop_trailing_spacers(b.drop_last())
    } else {
        b
    }
}

/// The blocks of the source `bytes` whose events are `evs`: the blank
/// lines after the last block count too, then spacers at either end go.
pub open spec fn md_blocks(evs: Seq<(MdEvent, usize, usize)>, bytes: Seq<u8>) -> Seq<BlockView> {
    let s = md_fold(evs, bytes);
    drop_trailing_spacers(
        drop_leading_spacers(spacer(s.blocks, s.last_pos, bytes.len() as usize, bytes)),
    )
}

// ---------------------------------------------------------------------------
// Building blocks
// ---------------------------------------------------------------------------

fn new_block(kind: BlockKind) -> (b: MarkdownBlock)
    ensures
        b@ == block_of(kind),
{
    let b = MarkdownBlock {
        kind,
        text: String::new(),
        rich: String::new(),
        level: 0,
        depth: 0,
        is_ordered: false,
        prefix: String::new(),
        is_task: false,
        is_checked: false,
        language: String::new(),
        rows: Vec::new(),
    };
    assert(rows_view(b.rows@) =~= seq![]);
    b
}

fn push_block(v: &mut Vec<MarkdownBlock>, b: MarkdownBlock)
    ensures
        blocks_view(final(v)@) == blocks_view(old(v)@).push(b@),
{
    let ghost b0 = blocks_view(v@);
    let ghost bv = b@;
    v.push(b);
    assert(blocks_view(v@) =~= b0.push(bv));
}

fn push_row(v: &mut Vec<TableRowBlock>, r: TableRowBlock)
    ensures
        rows_view(final(v)@) == rows_view(old(v)@).push(r@),
{
    let ghost r0 = rows_view(v@);
    let ghost rv = r@;
    v.push(r);
    assert(rows_view(v@) =~= r0.push(rv));
}

fn push_cell(v: &mut Vec<TableCellBlock>, c: TableCellBlock)
    ensures
        cells_view(final(v)@) == cells_view(old(v)@).push(c@),
{
    let ghost c0 = cells_view(v@);
    let ghost cv = c@;
    v.push(c);
    assert(cells_view(v@) =~= c0.push(cv));
}

fn capped_of(n: usize) -> (r: i32)
    ensures
        r == capped(n as nat),
{
    if n > 2147483647usize {
        i32::MAX
    } else {
        n as i32
    }
}

/// The line feeds in `bytes[a..b]`.
fn count_newlines(bytes: &[u8], a: usize, b: usize) -> (n: usize)
    requires
        a <= b <= bytes@.len(),
    ensures
        n == newlines(bytes@.subrange(a as int, b as int)),
{
    let mut n: usize = 0;
    let mut i: usize = a;
    assert(bytes@.subrange(a as int, a as int) =~= seq![]);
    while i < b
        invariant
            a <= i <= b <= bytes@.len(),
            n == newlines(bytes@.subrange(a as int, i as int)),
            n <= i - a,
        decreases b - i,
    {
        assert(bytes@.subrange(a as int, i + 1).drop_last() =~= bytes@.subrange(a as int, i as int));
        if bytes[i] == 10 {
            n += 1;
        }
        i += 1;
    }
    n
}

fn code_block_exec(code: &Vec<char>, language: &Vec<char>) -> (b: MarkdownBlock)
    ensures
        b@ == code_block_of(code@, language@),
{
    let low = lower_chars(language);
    let m = chars_of("mermaid");
    if crate::text::eq_chars(&low, &m) {
        let mut b = new_block(BlockKind::Mermaid);
        b.text = string_of(code.as_slice());
        b.language = crate::text::owned("MERMAID");
        b
    } else {
        let mut b = new_block(BlockKind::CodeBlock);
        b.text = string_of(code.as_slice());
        if language.len() > 0 {
            let l = string_of(language.as_slice());
            b.language = uppercase(l.as_str());
        }
        b
    }
}

// ---------------------------------------------------------------------------
// The parser
// ---------------------------------------------------------------------------

struct ItemFrame {
    element_index: usize,
    depth: i32,
    is_ordered: bool,
    prefix: Vec<char>,
    is_task: bool,
    is_checked: bool,
    rich: Vec<char>,
    plain: Vec<char>,
}

impl View for ItemFrame {
    type V = ItemView;

    closed spec fn view(&self) -> ItemView {
        ItemView {
            element_index: self.element_index,
            depth: self.depth,
            is_ordered: self.is_ordered,
            prefix: self.prefix@,
            is_task: self.is_task,
            is_checked: self.is_checked,
            rich: self.rich@,
            plain: self.plain@,
        }
    }
}

spec fn items_view(v: Seq<ItemFrame>) -> Seq<ItemView> {
    v.map_values(|f: ItemFrame| f@)
}

struct BlockParser {
    blocks: Vec<MarkdownBlock>,
    heading_level: i32,
    in_heading: bool,
    in_paragraph: bool,
    bq_depth: usize,
    bq_max: usize,
    link_url: Vec<char>,
    in_link: bool,
    rich: Vec<char>,
    lists: Vec<ListFrame>,
    items: Vec<ItemFrame>,
    aligns: Vec<i32>,
    rows: Vec<TableRowBlock>,
    cells: Vec<TableCellBlock>,
    row_header: bool,
    align_idx: usize,
    in_table: bool,
    in_head: bool,
    in_cell: bool,
    in_code: bool,
    language: Vec<char>,
    code: Vec<char>,
    last_pos: usize,
}

impl View for BlockParser {
    type V = MdView;

    closed spec fn view(&self) -> MdView {
        MdView {
            blocks: blocks_view(self.blocks@),
            heading_level: self.heading_level,
            in_heading: self.in_heading,
            in_paragraph: self.in_paragraph,
            bq_depth: self.bq_depth,
            bq_max: self.bq_max,
            link_url: self.link_url@,
            in_link: self.in_link,
            rich: self.rich@,
            lists: self.lists@,
            items: items_view(self.items@),
            aligns: self.aligns@,
            rows: rows_view(self.rows@),
            cells: cells_view(self.cells@),
            row_header: self.row_header,
            align_idx: self.align_idx,
            in_table: self.in_table,
            in_head: self.in_head,
            in_cell: self.in_cell,
            in_code: self.in_code,
            language: self.language@,
            code: self.code@,
            last_pos: self.last_pos,
        }
    }
}

impl BlockParser {
    fn new() -> (p: Self)
        ensures
            p@ == md_init(),
    {
        let p = BlockParser {
            blocks: Vec::new(),
            heading_level: 1,
            in_heading: false,
            in_paragraph: false,
            bq_depth: 0,
            bq_max: 0,
            link_url: Vec::new(),
            in_link: false,
            rich: Vec::new(),
            lists: Vec::new(),
            items: Vec::new(),
            aligns: Vec::new(),
            rows: Vec::new(),
            cells: Vec::new(),
            row_header: false,
            align_idx: 0,
            in_table: false,
            in_head: false,
            in_cell: false,
            in_code: false,
            language: Vec::new(),
            code: Vec::new(),
            last_pos: 0,
        };
        assert(blocks_view(p.blocks@) =~= seq![]);
        assert(items_view(p.items@) =~= seq![]);
        assert(rows_view(p.rows@) =~= seq![]);
        assert(cells_view(p.cells@) =~= seq![]);
        p
    }

    fn is_top_level(&self) -> (r: bool)
        ensures
            r == top_level(self@),
    {
        self.lists.len() == 0 && !self.in_table && !self.in_code && self.bq_depth == 0
    }

    fn add_inline(&mut self, rich: &Vec<char>, plain: &Vec<char>)
        ensures
            final(self)@ == add_inline(old(self)@, rich@, plain@),
    {
        let ghost s0 = self@;
        if self.items.len() > 0 {
            let ghost iv = items_view(self.items@);
            let mut f = self.items.pop().unwrap();
            push_all(&mut f.rich, rich);
            push_all(&mut f.plain, plain);
            let ghost fv = f@;
            self.items.push(f);
            assert(items_view(self.items@) =~= iv.update(iv.len() - 1, fv));
        } else if self.in_heading || self.in_paragraph || self.in_cell || self.bq_depth > 0 {
            push_all(&mut self.rich, rich);
        }
    }

    fn add_inline_str(&mut self, rich: &str)
        ensures
            final(self)@ == add_inline(old(self)@, rich@, seq![]),
    {
        let r = chars_of(rich);
        let p: Vec<char> = Vec::new();
        self.add_inline(&r, &p);
    }

    fn add_spacer(&mut self, start: usize, bytes: &[u8])
        ensures
            final(self)@ == with_spacer(old(self)@, start, bytes@),
    {
        if start > self.last_pos && self.last_pos < bytes.len() {
            let end = if start < bytes.len() {
                start
            } else {
                bytes.len()
            };
            let n = count_newlines(bytes, self.last_pos, end);
            if n > 0 {
                let mut b = new_block(BlockKind::Spacer);
                b.level = capped_of(n);
                push_block(&mut self.blocks, b);
            }
        }
    }

    fn push_text_block(&mut self, kind: BlockKind, md: Vec<char>, level: i32, depth: i32, end: usize)
        ensures
            final(self)@ == push_text_block(old(self)@, kind, md@, level, depth, end),
    {
        if md.len() > 0 {
            let mut b = new_block(kind);
            b.text = string_of(md.as_slice());
            b.rich = string_of(md.as_slice());
            b.level = level;
            b.depth = depth;
            push_block(&mut self.blocks, b);
            self.last_pos = end;
        }
    }

    fn start_quote(&mut self, start: usize, bytes: &[u8])
        ensures
            final(self)@ == start_quote(old(self)@, start, bytes@),
    {
        if self.bq_depth == 0 && self.lists.len() == 0 && !self.in_table && !self.in_code {
            self.add_spacer(start, bytes);
            self.rich = Vec::new();
            self.bq_max = 0;
        }
        let d = if self.bq_depth < usize::MAX {
            self.bq_depth + 1
        } else {
            self.bq_depth
        };
        self.bq_depth = d;
        if d > self.bq_max {
            self.bq_max = d;
        }
    }

    fn end_quote(&mut self, end: usize)
        ensures
            final(self)@ == end_quote(old(self)@, end),
    {
        if self.bq_depth > 0 {
            if self.bq_depth == 1 {
                let depth = capped_of(
                    if self.bq_max > 0 {
                        self.bq_max - 1
                    } else {
                        0
                    },
                );
                let md = trim_chars(&self.rich);
                self.push_text_block(BlockKind::BlockQuote, md, 0, depth, end);
                self.bq_depth = 0;
                self.rich = Vec::new();
            } else {
                self.bq_depth = self.bq_depth - 1;
            }
        }
    }

    fn start_heading(&mut self, l: u32, start: usize, bytes: &[u8])
        ensures
            final(self)@ == start_heading(old(self)@, l, start, bytes@),
    {
        if self.is_top_level() {
            self.add_spacer(start, bytes);
        }
        self.in_heading = true;
        self.heading_level = if l <= 2147483647u32 {
            l as i32
        } else {
            i32::MAX
        };
        self.rich = Vec::new();
    }

    fn end_heading(&mut self, end: usize)
        ensures
            final(self)@ == end_heading(old(self)@, end),
    {
        if self.in_heading {
            let md = trim_chars(&self.rich);
            let level = self.heading_level;
            self.push_text_block(BlockKind::Heading, md, level, 0, end);
            self.in_heading = false;
            self.rich = Vec::new();
        }
    }

    fn start_paragraph(&mut self, start: usize, bytes: &[u8])
        ensures
            final(self)@ == start_paragraph(old(self)@, start, bytes@),
    {
        if self.is_top_level() {
            self.add_spacer(start, bytes);
            self.in_paragraph = true;
            self.rich = Vec::new();
        }
    }

    fn end_paragraph(&mut self, end: usize)
        ensures
            final(self)@ == end_paragraph(old(self)@, end),
    {
        if self.in_paragraph && self.is_top_level() {
            let md = trim_chars(&self.rich);
            self.push_text_block(BlockKind::Paragraph, md, 0, 0, end);
            self.in_paragraph = false;
            self.rich = Vec::new();
        }
    }

    fn rule(&mut self, start: usize, end: usize, bytes: &[u8])
        ensures
            final(self)@ == rule(old(self)@, start, end, bytes@),
    {
        if self.is_top_level() {
            self.add_spacer(start, bytes);
            let mut b = new_block(BlockKind::Rule);
            b.text = crate::text::owned("---");
            push_block(&mut self.blocks, b);
            self.last_pos = end;
        }
    }

    fn start_code(&mut self, info: &Option<String>, start: usize, bytes: &[u8])
        ensures
            final(self)@ == start_code(
                old(self)@,
                match *info {
                    Some(i) => Some(i@),
                    None => None,
                },
                start,
                bytes@,
            ),
    {
        if self.lists.len() == 0 && !self.in_table && self.bq_depth == 0 {
            self.add_spacer(start, bytes);
        }
        self.in_code = true;
        self.language = match info {
            Some(i) => chars_of(i.as_str()),
            None => Vec::new(),
        };
        self.code = Vec::new();
    }

    fn end_code(&mut self, end: usize)
        ensures
            final(self)@ == end_code(old(self)@, end),
    {
        if self.in_code {
            let b = code_block_exec(&self.code, &self.language);
            push_block(&mut self.blocks, b);
            self.in_code = false;
            self.last_pos = end;
        }
    }

    fn start_link(&mut self, url: &String)
        ensures
            final(self)@ == start_link(old(self)@, url@),
    {
        self.in_link = true;
        self.link_url = chars_of(url.as_str());
        self.add_inline_str("[");
    }

    fn end_link(&mut self)
        ensures
            final(self)@ == end_link(old(self)@),
    {
        if self.in_link {
            let mut close = chars_of("](");
            let url = string_of(self.link_url.as_slice());
            let escaped = escape_link_destination(url.as_str());
            push_str_chars(&mut close, escaped.as_str());
            push_str_chars(&mut close, ")");
            let empty: Vec<char> = Vec::new();
            self.in_link = false;
            self.add_inline(&close, &empty);
            self.link_url = Vec::new();
        }
    }

    fn display_math(&mut self, e: &String, start: usize, end: usize, bytes: &[u8])
        ensures
            final(self)@ == display_math(old(self)@, e@, start, end, bytes@),
    {
        if self.is_top_level() {
            self.add_spacer(start, bytes);
            let mut b = new_block(BlockKind::DisplayMath);
            b.text = string_of(chars_of(e.as_str()).as_slice());
            let r = code_span_markdown(e.as_str());
            b.rich = string_of(r.as_slice());
            push_block(&mut self.blocks, b);
            self.last_pos = end;
        }
    }

    fn start_table(&mut self, aligns: &Vec<MdAlign>, start: usize, bytes: &[u8])
        ensures
            final(self)@ == start_table(old(self)@, aligns@, start, bytes@),
    {
        if self.lists.len() == 0 && !self.in_code && self.bq_depth == 0 {
            self.add_spacer(start, bytes);
        }
        self.in_table = true;
        let mut a: Vec<i32> = Vec::new();
        let mut i: usize = 0;
        while i < aligns.len()
            invariant
                i <= aligns.len(),
                a@ == aligns@.take(i as int).map_values(|x: MdAlign| align_int(x)),
            decreases aligns.len() - i,
        {
            let v: i32 = match aligns[i] {
                MdAlign::Unspecified => 0,
                MdAlign::Left => 1,
                MdAlign::Center => 2,
                MdAlign::Right => 3,
            };
            a.push(v);
            i += 1;
            assert(a@ =~= aligns@.take(i as int).map_values(|x: MdAlign| align_int(x)));
        }
        assert(aligns@.take(aligns.len() as int) =~= aligns@);
        self.aligns = a;
        self.rows = Vec::new();
        assert(rows_view(self.rows@) =~= seq![]);
    }

    fn flush_row(&mut self)
        ensures
            final(self)@ == flush_row(old(self)@),
    {
        if self.cells.len() > 0 {
            let mut cells: Vec<TableCellBlock> = Vec::new();
            std::mem::swap(&mut cells, &mut self.cells);
            let r = TableRowBlock { cells, is_header: self.row_header };
            push_row(&mut self.rows, r);
            assert(cells_view(self.cells@) =~= seq![]);
        }
    }

    fn end_table(&mut self, end: usize)
        ensures
            final(self)@ == end_table(old(self)@, end),
    {
        if self.in_table {
            self.flush_row();
            let mut rows: Vec<TableRowBlock> = Vec::new();
            std::mem::swap(&mut rows, &mut self.rows);
            let mut b = new_block(BlockKind::Table);
            b.rows = rows;
            push_block(&mut self.blocks, b);
            assert(rows_view(self.rows@) =~= seq![]);
            self.in_table = false;
            self.last_pos = end;
        }
    }

    fn start_head(&mut self)
        ensures
            final(self)@ == (MdView {
                in_head: true,
                row_header: true,
                cells: seq![],
                align_idx: 0,
                ..old(self)@
            }),
    {
        self.in_head = true;
        self.row_header = true;
        self.cells = Vec::new();
        self.align_idx = 0;
        assert(cells_view(self.cells@) =~= seq![]);
    }

    fn start_row(&mut self)
        ensures
            final(self)@ == (MdView {
                cells: seq![],
                row_header: old(self)@.in_head,
                align_idx: 0,
                ..old(self)@
            }),
    {
        self.cells = Vec::new();
        self.row_header = self.in_head;
        self.align_idx = 0;
        assert(cells_view(self.cells@) =~= seq![]);
    }

    fn end_cell(&mut self)
        ensures
            final(self)@ == end_cell(old(self)@),
    {
        let align: i32 = if self.align_idx < self.aligns.len() {
            self.aligns[self.align_idx]
        } else {
            0
        };
        let md = trim_chars(&self.rich);
        let c = TableCellBlock {
            text: string_of(md.as_slice()),
            alignment: align,
            is_header: self.row_header,
        };
        push_cell(&mut self.cells, c);
        self.in_cell = false;
        self.align_idx = if self.align_idx < usize::MAX {
            self.align_idx + 1
        } else {
            self.align_idx
        };
        self.rich = Vec::new();
    }

    fn start_list(&mut self, first: Option<u64>, start: usize, bytes: &[u8])
        ensures
            final(self)@ == start_list(old(self)@, first, start, bytes@),
    {
        if self.is_top_level() {
            self.add_spacer(start, bytes);
        }
        let index: i32 = match first {
            Some(n) => n as i32,
            None => 1,
        };
        self.lists.push(ListFrame { is_ordered: first.is_some(), index });
    }

    fn end_list(&mut self, end: usize)
        ensures
            final(self)@ == end_list(old(self)@, end),
    {
        if self.lists.len() > 0 {
            self.lists.pop();
        }
        if self.is_top_level() {
            self.last_pos = end;
        }
    }

    fn start_item(&mut self)
        ensures
            final(self)@ == start_item(old(self)@),
    {
        let ghost s0 = self@;
        let n = self.lists.len();
        let depth: i32 = if n == 0 {
            0
        } else {
            capped_of(n - 1)
        };
        let ordered = n > 0 && self.lists[n - 1].is_ordered;
        let mut prefix: Vec<char> = Vec::new();
        if ordered {
            let f = self.lists[n - 1];
            prefix = i64_text(f.index as i64);
            prefix.push('.');
            proof {
                reveal_strlit(".");
                assert(prefix@ =~= int_text(f.index as int) + "."@);
            }
            let next = if f.index < i32::MAX {
                f.index + 1
            } else {
                f.index
            };
            self.lists.set(n - 1, ListFrame { index: next, ..f });
        }
        let element_index = self.blocks.len();
        let mut b = new_block(BlockKind::ListItem);
        b.is_ordered = ordered;
        b.prefix = string_of(prefix.as_slice());
        b.depth = depth;
        push_block(&mut self.blocks, b);
        let ghost iv = items_view(self.items@);
        let f = ItemFrame {
            element_index,
            depth,
            is_ordered: ordered,
            prefix,
            is_task: false,
            is_checked: false,
            rich: Vec::new(),
            plain: Vec::new(),
        };
        let ghost fv = f@;
        self.items.push(f);
        assert(items_view(self.items@) =~= iv.push(fv));
        assert(self@.lists =~= start_item(s0).lists);
        assert(self@.blocks =~= start_item(s0).blocks);
        assert(self@.items =~= start_item(s0).items);
    }

    fn end_item(&mut self)
        ensures
            final(self)@ == end_item(old(self)@),
    {
        if self.items.len() > 0 {
            let ghost iv = items_view(self.items@);
            let f = self.items.pop().unwrap();
            assert(items_view(self.items@) =~= iv.drop_last());
            if f.element_index < self.blocks.len() {
                let mut b = new_block(BlockKind::ListItem);
                let t = trim_chars(&f.plain);
                let r = trim_chars(&f.rich);
                b.text = string_of(t.as_slice());
                b.rich = string_of(r.as_slice());
                b.is_ordered = f.is_ordered;
                b.prefix = string_of(f.prefix.as_slice());
                b.is_task = f.is_task;
                b.is_checked = f.is_checked;
                b.depth = f.depth;
                let ghost bv = blocks_view(self.blocks@);
                let ghost nb = b@;
                self.blocks.set(f.element_index, b);
                assert(blocks_view(self.blocks@) =~= bv.update(f.element_index as int, nb));
            }
        }
    }

    fn task_marker(&mut self, checked: bool)
        ensures
            final(self)@ == task_marker(old(self)@, checked),
    {
        if self.items.len() > 0 {
            let ghost iv = items_view(self.items@);
            let mut f = self.items.pop().unwrap();
            f.is_task = true;
            f.is_checked = checked;
            let ghost fv = f@;
            self.items.push(f);
            assert(items_view(self.items@) =~= iv.update(iv.len() - 1, fv));
        }
    }

    fn text_event(&mut self, t: &String)
        ensures
            final(self)@ == text_event(old(self)@, t@),
    {
        if self.in_code {
            push_str_chars(&mut self.code, t.as_str());
        } else {
            let v = chars_of(t.as_str());
            self.add_inline(&v, &v);
        }
    }

    fn code_event(&mut self, c: &String)
        ensures
            final(self)@ == code_event(old(self)@, c@),
    {
        if self.in_code {
            push_str_chars(&mut self.code, c.as_str());
        } else {
            let r = code_span_markdown(c.as_str());
            let p = chars_of(c.as_str());
            self.add_inline(&r, &p);
        }
    }

    fn inline_math(&mut self, e: &String)
        ensures
            final(self)@ == add_inline(old(self)@, code_span(e@), e@),
    {
        let r = code_span_markdown(e.as_str());
        let p = chars_of(e.as_str());
        self.add_inline(&r, &p);
    }

    fn break_event(&mut self)
        ensures
            final(self)@ == break_event(old(self)@),
    {
        if self.in_code {
            self.code.push('\n');
        } else {
            let mut v: Vec<char> = Vec::new();
            v.push('\n');
            self.add_inline(&v, &v);
        }
    }

    fn step(&mut self, ev: &MdEvent, start: usize, end: usize, bytes: &[u8])
        ensures
            final(self)@ == md_step(old(self)@, *ev, start, end, bytes@),
    {
        match ev {
            MdEvent::Start(tag) => match tag {
                MdTag::BlockQuote => self.start_quote(start, bytes),
                MdTag::Heading(l) => self.start_heading(*l, start, bytes),
                MdTag::Paragraph => self.start_paragraph(start, bytes),
                MdTag::CodeBlock(info) => self.start_code(info, start, bytes),
                MdTag::Link(url) => self.start_link(url),
                MdTag::Table(aligns) => self.start_table(aligns, start, bytes),
                MdTag::TableHead => self.start_head(),
                MdTag::TableRow => self.start_row(),
                MdTag::TableCell => {
                    self.in_cell = true;
                    self.rich = Vec::new();
                },
                MdTag::List(first) => self.start_list(*first, start, bytes),
                MdTag::Item => self.start_item(),
                MdTag::Strong => self.add_inline_str("**"),
                MdTag::Emphasis => self.add_inline_str("*"),
                MdTag::Strikethrough => self.add_inline_str("~~"),
                _ => {},
            },
            MdEvent::End(tag) => match tag {
                MdTagEnd::BlockQuote => self.end_quote(end),
                MdTagEnd::Heading => self.end_heading(end),
                MdTagEnd::Paragraph => self.end_paragraph(end),
                MdTagEnd::CodeBlock => self.end_code(end),
                MdTagEnd::Link => self.end_link(),
                MdTagEnd::Table => self.end_table(end),
                MdTagEnd::TableHead => {
                    self.flush_row();
                    self.in_head = false;
                },
                MdTagEnd::TableRow => self.flush_row(),
                MdTagEnd::TableCell => self.end_cell(),
                MdTagEnd::List => self.end_list(end),
                MdTagEnd::Item => self.end_item(),
                MdTagEnd::Strong => self.add_inline_str("**"),
                MdTagEnd::Emphasis => self.add_inline_str("*"),
                MdTagEnd::Strikethrough => self.add_inline_str("~~"),
                _ => {},
            },
            MdEvent::Rule => self.rule(start, end, bytes),
            MdEvent::InlineMath(e) => self.inline_math(e),
            MdEvent::DisplayMath(e) => self.display_math(e, start, end, bytes),
            MdEvent::TaskListMarker(c) => self.task_marker(*c),
            MdEvent::Text(t) => self.text_event(t),
            MdEvent::Code(c) => self.code_event(c),
            MdEvent::SoftBreak | MdEvent::HardBreak => self.break_event(),
            _ => {},
        }
    }
}

/// The blocks of the source `bytes`, given the events pulldown-cmark yields
/// for it with their byte ranges.
pub fn parse_markdown_events(events: &Vec<(MdEvent, usize, usize)>, bytes: &[u8]) -> (r: Vec<
    MarkdownBlock,
>)
    ensures
        blocks_view(r@) == md_blocks(events@, bytes@),
{
    let mut p = BlockParser::new();
    let mut i: usize = 0;
    while i < events.len()
        invariant
            i <= events.len(),
            p@ == md_fold(events@.take(i as int), bytes@),
        decreases events.len() - i,
    {
        assert(events@.take(i + 1).drop_last() =~= events@.take(i as int));
        let e = &events[i];
        p.step(&e.0, e.1, e.2, bytes);
        i += 1;
    }
    assert(events@.take(events.len() as int) =~= events@);
    p.add_spacer(bytes.len(), bytes);
    let mut blocks = p.blocks;
    let ghost all = blocks_view(blocks@);
    while blocks.len() > 0 && blocks[0].kind == BlockKind::Spacer
        invariant
            drop_leading_spacers(blocks_view(blocks@)) == drop_leading_spacers(all),
        decreases blocks.len(),
    {
        let ghost bv = blocks_view(blocks@);
        blocks.remove(0);
        assert(blocks_view(blocks@) =~= bv.drop_first());
    }
    let ghost lead = blocks_view(blocks@);
    assert(lead == drop_leading_spacers(all));
    while blocks.len() > 0 && blocks[blocks.len() - 1].kind == BlockKind::Spacer
        invariant
            drop_trailing_spacers(blocks_view(blocks@)) == drop_trailing_spacers(lead),
        decreases blocks.len(),
    {
        let ghost bv = blocks_view(blocks@);
        blocks.pop();
        assert(blocks_view(blocks@) =~= bv.drop_last());
    }
    blocks
}

/// Parses a markdown text into blocks: pulldown-cmark tokenises it with
/// tables, task lists, strikethrough and math, and [`md_blocks`] decides the
/// blocks from its events.
pub fn parse_markdown(markdown_text: &str) -> (r: Vec<MarkdownBlock>)
    ensures
        blocks_view(r@) == md_blocks(
            cmark_offset_events(markdown_text@, BLOCK_OPTIONS),
            markdown_text.spec_bytes(),
        ),
{
    let events = cmark_parse_offsets(markdown_text, BLOCK_OPTIONS);
    parse_markdown_events(&events, markdown_text.as_bytes())
}

// ---------------------------------------------------------------------------
// The elements of a turn
// ---------------------------------------------------------------------------

/// What the chat area shows of a turn: activity groups, and the markdown
/// blocks of everything else.
pub enum TurnElement {
    WorkGroup(ParsedMarkdownItem),
    Block(MarkdownBlock),
}

pub enum ElemView {
    WorkGroup(RespView),
    Block(BlockView),
}

impl View for TurnElement {
    type V = ElemView;

    open spec fn view(&self) -> ElemView {
        match self {
            TurnElement::WorkGroup(x) => ElemView::WorkGroup(resp_view(*x)),
            TurnElement::Block(b) => ElemView::Block(b@),
        }
    }
}

pub open spec fn elems_view(v: Seq<TurnElement>) -> Seq<ElemView> {
    v.map_values(|e: TurnElement| e@)
}

/// The elements of one shown block: an activity group as it is, anything
/// else by the markdown blocks of its text.
pub open spec fn item_elements(x: RespView) -> Seq<ElemView> {
    if x.kind == "work_group"@ {
        seq![ElemView::WorkGroup(x)]
    } else {
        md_blocks(cmark_offset_events(x.text, BLOCK_OPTIONS), vstd::utf8::encode_utf8(x.text)).map_values(
            |b: BlockView| ElemView::Block(b),
        )
    }
}

pub open spec fn all_elements(s: Seq<RespView>) -> Seq<ElemView>
    decreases s.len(),
{
    if s.len() == 0 {
        seq![]
    } else {
        all_elements(s.drop_last()) + item_elements(s.last())
    }
}

pub open spec fn is_spacer_elem(e: ElemView) -> bool {
    e matches ElemView::Block(b) && b.kind == BlockKind::Spacer
}

/// No spacer right after an activity group: spacers following one are
/// left out.
pub open spec fn drop_group_spacers(e: Seq<ElemView>) -> Seq<ElemView>
    decreases e.len(),
{
    if e.len() == 0 {
        seq![]
    } else {
        let o = drop_group_spacers(e.drop_last());
        if is_spacer_elem(e.last()) && o.len() > 0 && o.last() is WorkGroup {
            o
        } else {
            o.push(e.last())
        }
    }
}

/// The elements of a turn's blocks: loose cards grouped and blank text
/// dropped (see `display_blocks`), each block turned into its elements, and
/// no spacer right after an activity group.
pub open spec fn turn_elements(items: Seq<RespView>) -> Seq<ElemView> {
    drop_group_spacers(all_elements(display_blocks(items)))
}

fn is_group_elem(e: &TurnElement) -> (r: bool)
    ensures
        r == (e@ is WorkGroup),
{
    match e {
        TurnElement::WorkGroup(_) => true,
        TurnElement::Block(_) => false,
    }
}

/// The elements the chat area shows for a turn's blocks (see
/// [`turn_elements`]).
pub fn to_slint_elements(items: Vec<ParsedMarkdownItem>) -> (r: Vec<TurnElement>)
    ensures
        elems_view(r@) == turn_elements(resp_views(items@)),
{
    let mut grouped = group_legacy_work_items(items);
    let ghost gv = resp_views(grouped@);
    proof {
        lemma_resp_views_len(grouped@);
        assert forall|k: int| 0 <= k < grouped@.len() implies resp_view(#[trigger] grouped@[k]) == gv[k] by {
            lemma_resp_views_index(grouped@, k);
        }
        reveal_strlit("work_group");
    }
    let mut all: Vec<TurnElement> = Vec::new();
    let ghost mut i: int = 0;
    assert(elems_view(all@) =~= all_elements(gv.take(0)));
    while grouped.len() > 0
        invariant
            0 <= i <= gv.len(),
            grouped@.len() == gv.len() - i,
            forall|k: int| 0 <= k < grouped@.len() ==> resp_view(#[trigger] grouped@[k]) == gv[i + k],
            elems_view(all@) == all_elements(gv.take(i)),
        decreases grouped.len(),
    {
        let ghost g0 = grouped@;
        let x = grouped.remove(0);
        assert(resp_view(x) == gv[i]);
        assert forall|k: int| 0 <= k < grouped@.len() implies resp_view(#[trigger] grouped@[k]) == gv[i + 1 + k] by {
            assert(grouped@[k] == g0[k + 1]);
        }
        let ghost a0 = elems_view(all@);
        assert(gv.take(i + 1).drop_last() =~= gv.take(i));
        if str_eq(x.kind.as_str(), "work_group") {
            let ghost xv = resp_view(x);
            all.push(TurnElement::WorkGroup(x));
            assert(elems_view(all@) =~= a0 + seq![ElemView::WorkGroup(xv)]);
        } else {
            let mut bs = parse_markdown(x.text.as_str());
            let ghost bv = blocks_view(bs@);
            let ghost mut j: int = 0;
            assert(bv.take(0).map_values(|b: BlockView| ElemView::Block(b)) =~= seq![]);
            assert(elems_view(all@) =~= a0 + bv.take(0).map_values(|b: BlockView| ElemView::Block(b)));
            assert(blocks_view(bs@) =~= bv.skip(0));
            while bs.len() > 0
                invariant
                    0 <= j <= bv.len(),
                    blocks_view(bs@) == bv.skip(j),
                    elems_view(all@) == a0 + bv.take(j).map_values(|b: BlockView| ElemView::Block(b)),
                decreases bs.len(),
            {
                let ghost b0 = bs@;
                let ghost e0 = elems_view(all@);
                let b = bs.remove(0);
                assert(blocks_view(bs@) =~= blocks_view(b0).drop_first());
                assert(blocks_view(b0)[0] == bv.skip(j)[0]);
                assert(b@ == bv[j]);
                all.push(TurnElement::Block(b));
                assert(elems_view(all@) =~= e0.push(ElemView::Block(bv[j])));
                assert(bv.take(j + 1).map_values(|b: BlockView| ElemView::Block(b)) =~= bv.take(j).map_values(
                    |b: BlockView| ElemView::Block(b),
                ).push(ElemView::Block(bv[j])));
                assert(bv.skip(j).drop_first() =~= bv.skip(j + 1));
                proof {
                    j = j + 1;
                }
            }
            assert(bv.take(j) =~= bv);
        }
        proof {
            i = i + 1;
        }
    }
    assert(gv.take(i) =~= gv);
    let ghost ev = elems_view(all@);
    let mut out: Vec<TurnElement> = Vec::new();
    let ghost mut j: int = 0;
    assert(elems_view(out@) =~= drop_group_spacers(ev.take(0)));
    assert(elems_view(all@) =~= ev.skip(0));
    while all.len() > 0
        invariant
            0 <= j <= ev.len(),
            elems_view(all@) == ev.skip(j),
            elems_view(out@) == drop_group_spacers(ev.take(j)),
        decreases all.len(),
    {
        let ghost a0 = all@;
        let ghost o0 = elems_view(out@);
        let e = all.remove(0);
        assert(elems_view(all@) =~= elems_view(a0).drop_first());
        assert(elems_view(a0)[0] == ev.skip(j)[0]);
        assert(e@ == ev[j]);
        assert(ev.take(j + 1).drop_last() =~= ev.take(j));
        assert(ev.skip(j).drop_first() =~= ev.skip(j + 1));
        let spacer_after_group = match &e {
            TurnElement::Block(b) => b.kind == BlockKind::Spacer && out.len() > 0 && is_group_elem(
                &out[out.len() - 1],
            ),
            TurnElement::WorkGroup(_) => false,
        };
        if out.len() > 0 {
            assert(o0.last() == out@[out.len() - 1]@);
        }
        if !spacer_after_group {
            out.push(e);
            assert(elems_view(out@) =~= o0.push(ev[j]));
        }
        proof {
            j = j + 1;
        }
    }
    assert(ev.take(j) =~= ev);
    out
}

} // verus!
