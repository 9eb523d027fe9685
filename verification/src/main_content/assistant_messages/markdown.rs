//! Turning an assistant message into display blocks.
//!
//! The message is tokenised by pulldown-cmark; the event stream then drives a
//! small state machine that holds the block being built (a paragraph, a
//! heading, a code block, a list item, a quote or a table) and emits a
//! [`ParsedMarkdownItem`] whenever a block ends.

use super::accumulator::{
    acc_empty, acc_end_tag, acc_push_code, acc_push_inline_math, acc_push_plain_break,
    acc_push_space, acc_push_text, acc_start_tag, acc_trimmed_spans, AccView, InlineAccumulator,
};
use super::blocks::{
    clean_lines, first_word, highlight_code_sendable, is_mermaid_lang, is_mermaid_language,
    is_standalone_svg_document, is_svg_lang, is_svg_language, looks_like_svg, preprocess,
    preprocess_markdown, primary_language_token, svg_document, svg_like, syntect_highlight,
};
use super::cmark::{cmark_events, cmark_parse, MdEvent, MdTag, MdTagEnd, MARKDOWN_OPTIONS};
use super::diagram_layout::{mermaid_diagram, parse_mermaid_diagram};
use super::inline::{spans_styled, should_render_inline_spans};
use super::items::{
    code_lines_view, item_default, items_view, lemma_items_view_push, new_item, ItemView,
    ParsedCodeLine, ParsedMarkdownItem,
};
use super::table::{
    tb_end_cell, tb_end_row, tb_into_item, tb_new, tb_start_cell, tb_start_row, TableBuilder,
    TableView,
};
use crate::text::{
    all_ws, chars_of, is_blank, owned, string_of, trim, trim_end, trimmed, trimmed_end,
};
use vstd::prelude::*;

verus! {

// ---------------------------------------------------------------------------
// The block being built
// ---------------------------------------------------------------------------

/// The block the parser is inside.
pub enum BlockState {
    Empty,
    Paragraph(InlineAccumulator),
    /// A heading with its level.
    Heading(u32, InlineAccumulator),
    /// A code block with its info string and its text so far.
    CodeBlock(String, String),
    Item(InlineAccumulator),
    Quote(InlineAccumulator),
    Table(TableBuilder),
}

/// The value of a [`BlockState`].
pub enum BlockView {
    Empty,
    Paragraph(AccView),
    Heading(u32, AccView),
    CodeBlock(Seq<char>, Seq<char>),
    Item(AccView),
    Quote(AccView),
    Table(TableView),
}

impl View for BlockState {
    type V = BlockView;

    open spec fn view(&self) -> BlockView {
        match self {
            BlockState::Empty => BlockView::Empty,
            BlockState::Paragraph(a) => BlockView::Paragraph(a@),
            BlockState::Heading(l, a) => BlockView::Heading(*l, a@),
            BlockState::CodeBlock(lang, text) => BlockView::CodeBlock(lang@, text@),
            BlockState::Item(a) => BlockView::Item(a@),
            BlockState::Quote(a) => BlockView::Quote(a@),
            BlockState::Table(t) => BlockView::Table(t@),
        }
    }
}

// ---------------------------------------------------------------------------
// Specification of the state machine
// ---------------------------------------------------------------------------

/// The block an accumulator makes: its text without trailing whitespace,
/// nothing when that text is blank.
pub open spec fn from_inline(kind: Seq<char>, a: AccView) -> Option<ItemView> {
    let text = trim_end(a.plain);
    if all_ws(text) {
        None
    } else {
        let spans = acc_trimmed_spans(a);
        Some(
            ItemView {
                inline_markdown: trim_end(a.markdown),
                inline_spans: if spans_styled(spans) {
                    spans
                } else {
                    seq![]
                },
                ..item_default(kind, text, seq![], seq![])
            },
        )
    }
}

pub open spec fn heading_kind(level: u32) -> Seq<char> {
    if level == 1 {
        "h1"@
    } else if level == 2 {
        "h2"@
    } else {
        "h3"@
    }
}

pub open spec fn push_opt(items: Seq<ItemView>, it: Option<ItemView>) -> Seq<ItemView> {
    match it {
        Some(i) => items.push(i),
        None => items,
    }
}

/// The item with its text (and, when `md`, its inline markdown) trimmed.
pub open spec fn trim_item(it: Option<ItemView>, md: bool) -> Option<ItemView> {
    match it {
        Some(i) => Some(
            ItemView {
                text: trim(i.text),
                inline_markdown: if md {
                    trim(i.inline_markdown)
                } else {
                    i.inline_markdown
                },
                ..i
            },
        ),
        None => None,
    }
}

/// The item a finished code block makes: a diagram for Mermaid, an SVG
/// image for SVG sources, highlighted code otherwise.
pub open spec fn code_item(lang: Seq<char>, text: Seq<char>, skip: bool) -> ItemView {
    let tok = first_word(lang);
    if is_mermaid_lang(tok) {
        let d = mermaid_diagram(text);
        ItemView {
            mermaid_nodes: d.nodes,
            mermaid_edges: d.edges,
            mermaid_width_px: d.width_px,
            mermaid_height_px: d.height_px,
            ..item_default("mermaid"@, text, lang, seq![])
        }
    } else if is_svg_lang(tok) || svg_like(text) {
        item_default("svg"@, text, lang, seq![])
    } else {
        item_default(
            "code"@,
            text,
            lang,
            if skip {
                seq![]
            } else {
                clean_lines(syntect_highlight(text, tok))
            },
        )
    }
}

/// Ends the current block, emitting its item.
pub open spec fn flush(st: BlockView, items: Seq<ItemView>, skip: bool) -> Seq<ItemView> {
    match st {
        BlockView::Empty => items,
        BlockView::Paragraph(a) => push_opt(items, from_inline("p"@, a)),
        BlockView::Heading(l, a) => push_opt(items, trim_item(from_inline(heading_kind(l), a), false)),
        BlockView::CodeBlock(lang, text) => items.push(code_item(lang, text, skip)),
        BlockView::Item(a) => push_opt(items, trim_item(from_inline("bullet"@, a), true)),
        BlockView::Quote(a) => push_opt(items, trim_item(from_inline("quote"@, a), true)),
        BlockView::Table(t) => push_opt(items, tb_into_item(t)),
    }
}

pub open spec fn text_into(st: BlockView, t: Seq<char>) -> BlockView {
    match st {
        BlockView::Empty => BlockView::Paragraph(acc_push_text(acc_empty(), t)),
        BlockView::Paragraph(a) => BlockView::Paragraph(acc_push_text(a, t)),
        BlockView::Heading(l, a) => BlockView::Heading(l, acc_push_text(a, t)),
        BlockView::CodeBlock(lang, code) => BlockView::CodeBlock(lang, code + t),
        BlockView::Item(a) => BlockView::Item(acc_push_text(a, t)),
        BlockView::Quote(a) => BlockView::Quote(acc_push_text(a, t)),
        BlockView::Table(tb) => BlockView::Table(
            if tb.in_cell {
                TableView { current_cell: acc_push_text(tb.current_cell, t), ..tb }
            } else {
                tb
            },
        ),
    }
}

pub open spec fn code_into(st: BlockView, t: Seq<char>) -> BlockView {
    match st {
        BlockView::Empty => BlockView::Paragraph(acc_push_code(acc_empty(), t)),
        BlockView::Paragraph(a) => BlockView::Paragraph(acc_push_code(a, t)),
        BlockView::Heading(l, a) => BlockView::Heading(l, acc_push_code(a, t)),
        BlockView::CodeBlock(lang, code) => BlockView::CodeBlock(lang, code + t),
        BlockView::Item(a) => BlockView::Item(acc_push_code(a, t)),
        BlockView::Quote(a) => BlockView::Quote(acc_push_code(a, t)),
        BlockView::Table(tb) => BlockView::Table(
            if tb.in_cell {
                TableView { current_cell: acc_push_code(tb.current_cell, t), ..tb }
            } else {
                tb
            },
        ),
    }
}

pub open spec fn math_into(st: BlockView, t: Seq<char>) -> BlockView {
    match st {
        BlockView::Empty => BlockView::Paragraph(acc_push_inline_math(acc_empty(), t)),
        BlockView::Paragraph(a) => BlockView::Paragraph(acc_push_inline_math(a, t)),
        BlockView::Heading(l, a) => BlockView::Heading(l, acc_push_inline_math(a, t)),
        BlockView::CodeBlock(lang, code) => BlockView::CodeBlock(lang, code + t),
        BlockView::Item(a) => BlockView::Item(acc_push_inline_math(a, t)),
        BlockView::Quote(a) => BlockView::Quote(acc_push_inline_math(a, t)),
        BlockView::Table(tb) => BlockView::Table(
            if tb.in_cell {
                TableView { current_cell: acc_push_inline_math(tb.current_cell, t), ..tb }
            } else {
                tb
            },
        ),
    }
}

pub open spec fn break_into(st: BlockView, hard: bool) -> BlockView {
    let mb = if hard {
        "  \n"@
    } else {
        "\n"@
    };
    match st {
        BlockView::Empty => st,
        BlockView::Paragraph(a) => BlockView::Paragraph(acc_push_plain_break(a, mb)),
        BlockView::Quote(a) => BlockView::Quote(acc_push_plain_break(a, mb)),
        BlockView::Heading(l, a) => BlockView::Heading(l, acc_push_space(a)),
        BlockView::Item(a) => BlockView::Item(acc_push_space(a)),
        BlockView::CodeBlock(lang, code) => BlockView::CodeBlock(lang, code.push('\n')),
        BlockView::Table(tb) => BlockView::Table(
            if tb.in_cell {
                TableView { current_cell: acc_push_space(tb.current_cell), ..tb }
            } else {
                tb
            },
        ),
    }
}

/// An inline opening or closing tag, applied to the block's accumulator
/// (a paragraph is opened when there is no block; code blocks hold no
/// inline tags and are left as they are).
pub open spec fn inline_start(st: BlockView, tag: MdTag) -> BlockView {
    match st {
        BlockView::Empty => BlockView::Paragraph(acc_start_tag(acc_empty(), tag)),
        BlockView::Paragraph(a) => BlockView::Paragraph(acc_start_tag(a, tag)),
        BlockView::Heading(l, a) => BlockView::Heading(l, acc_start_tag(a, tag)),
        BlockView::Item(a) => BlockView::Item(acc_start_tag(a, tag)),
        BlockView::Quote(a) => BlockView::Quote(acc_start_tag(a, tag)),
        BlockView::Table(tb) => BlockView::Table(
            TableView { current_cell: acc_start_tag(tb.current_cell, tag), ..tb },
        ),
        BlockView::CodeBlock(_, _) => st,
    }
}

pub open spec fn inline_end(st: BlockView, tag: MdTagEnd) -> BlockView {
    match st {
        BlockView::Empty => BlockView::Paragraph(acc_end_tag(acc_empty(), tag)),
        BlockView::Paragraph(a) => BlockView::Paragraph(acc_end_tag(a, tag)),
        BlockView::Heading(l, a) => BlockView::Heading(l, acc_end_tag(a, tag)),
        BlockView::Item(a) => BlockView::Item(acc_end_tag(a, tag)),
        BlockView::Quote(a) => BlockView::Quote(acc_end_tag(a, tag)),
        BlockView::Table(tb) => BlockView::Table(
            TableView { current_cell: acc_end_tag(tb.current_cell, tag), ..tb },
        ),
        BlockView::CodeBlock(_, _) => st,
    }
}

/// An opening tag inside a table.
pub open spec fn table_start(tb: TableView, tag: MdTag) -> TableView {
    match tag {
        MdTag::TableHead => tb_start_row(TableView { in_header: true, ..tb }),
        MdTag::TableRow => tb_start_row(tb),
        MdTag::TableCell => tb_start_cell(tb),
        MdTag::Paragraph => tb,
        _ => if tb.in_cell {
            TableView { current_cell: acc_start_tag(tb.current_cell, tag), ..tb }
        } else {
            tb
        },
    }
}

pub open spec fn is_nested(st: BlockView) -> bool {
    st is Item || st is Quote
}

/// An opening tag: (new block, items).
pub open spec fn start_step(st: BlockView, items: Seq<ItemView>, tag: MdTag, skip: bool) -> (
    BlockView,
    Seq<ItemView>,
) {
    match st {
        BlockView::Table(tb) => (BlockView::Table(table_start(tb, tag)), items),
        _ => match tag {
            MdTag::Paragraph => if is_nested(st) {
                (st, items)
            } else {
                (BlockView::Paragraph(acc_empty()), flush(st, items, skip))
            },
            MdTag::Heading(l) => (BlockView::Heading(l, acc_empty()), flush(st, items, skip)),
            MdTag::CodeBlock(info) => (
                BlockView::CodeBlock(
                    match info {
                        Some(s) => s@,
                        None => seq![],
                    },
                    seq![],
                ),
                flush(st, items, skip),
            ),
            MdTag::Item => (BlockView::Item(acc_empty()), flush(st, items, skip)),
            MdTag::BlockQuote => (BlockView::Quote(acc_empty()), flush(st, items, skip)),
            MdTag::Table(aligns) => (BlockView::Table(tb_new(aligns@)), flush(st, items, skip)),
            MdTag::Emphasis | MdTag::Strong | MdTag::Strikethrough | MdTag::Link(_) | MdTag::Image(
                _,
            ) => (inline_start(st, tag), items),
            _ => (st, items),
        },
    }
}

/// A closing tag inside a table: (new block, items).
pub open spec fn table_end(tb: TableView, items: Seq<ItemView>, tag: MdTagEnd, skip: bool) -> (
    BlockView,
    Seq<ItemView>,
) {
    match tag {
        MdTagEnd::TableCell => (BlockView::Table(tb_end_cell(tb)), items),
        MdTagEnd::TableRow => (BlockView::Table(tb_end_row(tb)), items),
        MdTagEnd::TableHead => {
            let t1 = if tb.current_row.len() > 0 {
                tb_end_row(tb)
            } else {
                tb
            };
            (BlockView::Table(TableView { in_header: false, ..t1 }), items)
        },
        MdTagEnd::Table => (BlockView::Empty, flush(BlockView::Table(tb), items, skip)),
        MdTagEnd::Paragraph => (BlockView::Table(tb), items),
        _ => (
            BlockView::Table(
                if tb.in_cell {
                    TableView { current_cell: acc_end_tag(tb.current_cell, tag), ..tb }
                } else {
                    tb
                },
            ),
            items,
        ),
    }
}

/// A closing tag: (new block, items).
pub open spec fn end_step(st: BlockView, items: Seq<ItemView>, tag: MdTagEnd, skip: bool) -> (
    BlockView,
    Seq<ItemView>,
) {
    match st {
        BlockView::Table(tb) => table_end(tb, items, tag, skip),
        _ => match tag {
            MdTagEnd::Paragraph => if is_nested(st) {
                (st, items)
            } else {
                (BlockView::Empty, flush(st, items, skip))
            },
            MdTagEnd::Heading | MdTagEnd::CodeBlock | MdTagEnd::Item | MdTagEnd::BlockQuote => (
                BlockView::Empty,
                flush(st, items, skip),
            ),
            MdTagEnd::Emphasis | MdTagEnd::Strong | MdTagEnd::Strikethrough | MdTagEnd::Link
            | MdTagEnd::Image => (inline_end(st, tag), items),
            _ => (st, items),
        },
    }
}

pub open spec fn task_marker(checked: bool) -> Seq<char> {
    if checked {
        "[x] "@
    } else {
        "[ ] "@
    }
}

/// One event: (new block, items).
pub open spec fn step(st: BlockView, items: Seq<ItemView>, ev: MdEvent, skip: bool) -> (
    BlockView,
    Seq<ItemView>,
) {
    match ev {
        MdEvent::Start(tag) => start_step(st, items, tag, skip),
        MdEvent::End(tag) => end_step(st, items, tag, skip),
        MdEvent::Text(t) => (text_into(st, t@), items),
        MdEvent::Code(t) => (code_into(st, t@), items),
        MdEvent::InlineMath(t) => (math_into(st, t@), items),
        MdEvent::DisplayMath(t) => (
            BlockView::Empty,
            flush(st, items, skip).push(
                ItemView { math_display: true, ..item_default("math"@, t@, seq![], seq![]) },
            ),
        ),
        MdEvent::SoftBreak => (break_into(st, false), items),
        MdEvent::HardBreak => (break_into(st, true), items),
        MdEvent::Rule => (
            BlockView::Empty,
            flush(st, items, skip).push(item_default("rule"@, seq![], seq![], seq![])),
        ),
        MdEvent::TaskListMarker(c) => (text_into(st, task_marker(c)), items),
        MdEvent::Html(h) | MdEvent::InlineHtml(h) => if svg_like(h@) {
            (
                BlockView::Empty,
                flush(st, items, skip).push(item_default("svg"@, trim(h@), "svg"@, seq![])),
            )
        } else {
            (text_into(st, h@), items)
        },
        MdEvent::FootnoteReference(r) => (text_into(st, "[^"@ + r@ + "]"@), items),
    }
}

/// The state after a run of events.
pub open spec fn run(evs: Seq<MdEvent>, skip: bool) -> (BlockView, Seq<ItemView>)
    decreases evs.len(),
{
    if evs.len() == 0 {
        (BlockView::Empty, seq![])
    } else {
        let (st, items) = run(evs.drop_last(), skip);
        step(st, items, evs.last(), skip)
    }
}

/// The items of a whole event stream: the last block is flushed, and an
/// empty paragraph stands for a message without any.
pub open spec fn events_items(evs: Seq<MdEvent>, skip: bool) -> Seq<ItemView> {
    let (st, items) = run(evs, skip);
    let out = flush(st, items, skip);
    if out.len() == 0 {
        seq![item_default("p"@, seq![], seq![], seq![])]
    } else {
        out
    }
}

/// The items of an assistant message: a standalone SVG document is one SVG
/// item; anything else goes through the markdown events of its
/// preprocessed text.
pub open spec fn message_items(markdown: Seq<char>, skip: bool) -> Seq<ItemView> {
    let pre = preprocess(markdown);
    if svg_document(pre) {
        seq![item_default("svg"@, trim(pre), "svg"@, seq![])]
    } else {
        events_items(cmark_events(pre, MARKDOWN_OPTIONS), skip)
    }
}

// ---------------------------------------------------------------------------
// Nesting depth
// ---------------------------------------------------------------------------

pub open spec fn acc_le(a: AccView, n: nat) -> bool {
    a.emphasis <= n && a.strong <= n
}

/// Emphasis and strong nesting of the block stay within `n`.
pub open spec fn depth_le(st: BlockView, n: nat) -> bool {
    match st {
        BlockView::Paragraph(a) => acc_le(a, n),
        BlockView::Heading(_, a) => acc_le(a, n),
        BlockView::Item(a) => acc_le(a, n),
        BlockView::Quote(a) => acc_le(a, n),
        BlockView::Table(t) => acc_le(t.current_cell, n),
        _ => true,
    }
}

/// One event deepens the nesting by at most one level.
pub proof fn lemma_step_depth(st: BlockView, items: Seq<ItemView>, ev: MdEvent, skip: bool, n: nat)
    requires
        depth_le(st, n),
    ensures
        depth_le(step(st, items, ev, skip).0, n + 1),
{
    match ev {
        MdEvent::Start(tag) => {
            match st {
                BlockView::Table(tb) => {
                    assert(depth_le(BlockView::Table(table_start(tb, tag)), n + 1));
                },
                _ => {
                    assert(depth_le(inline_start(st, tag), n + 1));
                },
            }
        },
        MdEvent::End(tag) => {
            match st {
                BlockView::Table(tb) => {
                    assert(depth_le(table_end(tb, items, tag, skip).0, n + 1));
                },
                _ => {
                    assert(depth_le(inline_end(st, tag), n + 1));
                },
            }
        },
        MdEvent::Text(t) => {
            assert(depth_le(text_into(st, t@), n + 1));
        },
        MdEvent::Code(t) => {
            assert(depth_le(code_into(st, t@), n + 1));
        },
        MdEvent::InlineMath(t) => {
            assert(depth_le(math_into(st, t@), n + 1));
        },
        MdEvent::SoftBreak => {
            assert(depth_le(break_into(st, false), n + 1));
        },
        MdEvent::HardBreak => {
            assert(depth_le(break_into(st, true), n + 1));
        },
        MdEvent::TaskListMarker(c) => {
            assert(depth_le(text_into(st, task_marker(c)), n + 1));
        },
        MdEvent::Html(h) => {
            assert(depth_le(text_into(st, h@), n + 1));
        },
        MdEvent::InlineHtml(h) => {
            assert(depth_le(text_into(st, h@), n + 1));
        },
        MdEvent::FootnoteReference(r) => {
            assert(depth_le(text_into(st, "[^"@ + r@ + "]"@), n + 1));
        },
        _ => {},
    }
}

// ---------------------------------------------------------------------------
// The state machine
// ---------------------------------------------------------------------------

pub open spec fn opt_view(r: Option<ParsedMarkdownItem>) -> Option<ItemView> {
    match r {
        Some(i) => Some(i@),
        None => None,
    }
}

fn item_from_inline(kind: &str, acc: InlineAccumulator) -> (r: Option<ParsedMarkdownItem>)
    ensures
        opt_view(r) == from_inline(kind@, acc@),
{
    let text = trimmed_end(acc.plain.as_str());
    if is_blank(text.as_str()) {
        return None;
    }
    let md = trimmed_end(acc.markdown.as_str());
    let mut item = new_item(kind, text, String::new());
    proof {
        reveal_strlit("");
        assert(""@ =~= Seq::<char>::empty());
    }
    item.inline_markdown = md;
    let ghost a = acc@;
    let spans = acc.trimmed_spans();
    if should_render_inline_spans(&spans) {
        item.inline_spans = spans;
    }
    Some(item)
}

fn push_some(items: &mut Vec<ParsedMarkdownItem>, it: Option<ParsedMarkdownItem>)
    ensures
        items_view(final(items)@) == push_opt(items_view(old(items)@), opt_view(it)),
{
    match it {
        Some(i) => {
            proof {
                lemma_items_view_push(items@, i);
            }
            items.push(i);
        },
        None => {},
    }
}

fn trim_block_item(it: Option<ParsedMarkdownItem>, md: bool) -> (r: Option<ParsedMarkdownItem>)
    ensures
        opt_view(r) == trim_item(opt_view(it), md),
{
    match it {
        Some(mut i) => {
            i.text = trimmed(i.text.as_str());
            if md {
                i.inline_markdown = trimmed(i.inline_markdown.as_str());
            }
            Some(i)
        },
        None => None,
    }
}

fn code_block_item(lang: String, text: String, skip: bool) -> (r: ParsedMarkdownItem)
    ensures
        r@ == code_item(lang@, text@, skip),
{
    let lv = chars_of(lang.as_str());
    let tok = primary_language_token(&lv);
    if is_mermaid_language(&tok) {
        let d = parse_mermaid_diagram(text.as_str());
        let mut item = new_item("mermaid", text, lang);
        item.mermaid_nodes = d.nodes;
        item.mermaid_edges = d.edges;
        item.mermaid_width_px = d.width_px;
        item.mermaid_height_px = d.height_px;
        item
    } else if is_svg_language(&tok) || looks_like_svg(text.as_str()) {
        new_item("svg", text, lang)
    } else {
        let code_lines: Vec<ParsedCodeLine> = if skip {
            let v: Vec<ParsedCodeLine> = Vec::new();
            assert(code_lines_view(v@) =~= seq![]);
            v
        } else {
            let ts = string_of(tok.as_slice());
            highlight_code_sendable(text.as_str(), ts.as_str())
        };
        ParsedMarkdownItem::new_default(owned("code"), text, lang, code_lines)
    }
}

/// Ends the block `st`, appending its item to `items`.
fn flush_state_sendable(st: BlockState, items: &mut Vec<ParsedMarkdownItem>, skip: bool)
    ensures
        items_view(final(items)@) == flush(st@, items_view(old(items)@), skip),
{
    match st {
        BlockState::Empty => {},
        BlockState::Paragraph(a) => {
            let it = item_from_inline("p", a);
            push_some(items, it);
        },
        BlockState::Heading(l, a) => {
            let kind = if l == 1 {
                "h1"
            } else if l == 2 {
                "h2"
            } else {
                "h3"
            };
            let it = trim_block_item(item_from_inline(kind, a), false);
            push_some(items, it);
        },
        BlockState::CodeBlock(lang, text) => {
            let it = code_block_item(lang, text, skip);
            proof {
                lemma_items_view_push(items@, it);
            }
            items.push(it);
        },
        BlockState::Item(a) => {
            let it = trim_block_item(item_from_inline("bullet", a), true);
            push_some(items, it);
        },
        BlockState::Quote(a) => {
            let it = trim_block_item(item_from_inline("quote", a), true);
            push_some(items, it);
        },
        BlockState::Table(t) => {
            let it = t.into_item();
            push_some(items, it);
        },
    }
}

fn push_text(st: BlockState, t: &str) -> (r: BlockState)
    ensures
        r@ == text_into(st@, t@),
{
    match st {
        BlockState::Empty => {
            let mut a = InlineAccumulator::new();
            a.push_text(t);
            BlockState::Paragraph(a)
        },
        BlockState::Paragraph(mut a) => {
            a.push_text(t);
            BlockState::Paragraph(a)
        },
        BlockState::Heading(l, mut a) => {
            a.push_text(t);
            BlockState::Heading(l, a)
        },
        BlockState::CodeBlock(lang, mut code) => {
            crate::text::string_push_str(&mut code, t);
            BlockState::CodeBlock(lang, code)
        },
        BlockState::Item(mut a) => {
            a.push_text(t);
            BlockState::Item(a)
        },
        BlockState::Quote(mut a) => {
            a.push_text(t);
            BlockState::Quote(a)
        },
        BlockState::Table(mut tb) => {
            if tb.in_cell {
                tb.current_cell.push_text(t);
            }
            BlockState::Table(tb)
        },
    }
}

fn push_code(st: BlockState, t: &str) -> (r: BlockState)
    ensures
        r@ == code_into(st@, t@),
{
    match st {
        BlockState::Empty => {
            let mut a = InlineAccumulator::new();
            a.push_code(t);
            BlockState::Paragraph(a)
        },
        BlockState::Paragraph(mut a) => {
            a.push_code(t);
            BlockState::Paragraph(a)
        },
        BlockState::Heading(l, mut a) => {
            a.push_code(t);
            BlockState::Heading(l, a)
        },
        BlockState::CodeBlock(lang, mut code) => {
            crate::text::string_push_str(&mut code, t);
            BlockState::CodeBlock(lang, code)
        },
        BlockState::Item(mut a) => {
            a.push_code(t);
            BlockState::Item(a)
        },
        BlockState::Quote(mut a) => {
            a.push_code(t);
            BlockState::Quote(a)
        },
        BlockState::Table(mut tb) => {
            if tb.in_cell {
                tb.current_cell.push_code(t);
            }
            BlockState::Table(tb)
        },
    }
}

fn push_inline_math(st: BlockState, t: &str) -> (r: BlockState)
    ensures
        r@ == math_into(st@, t@),
{
    match st {
        BlockState::Empty => {
            let mut a = InlineAccumulator::new();
            a.push_inline_math(t);
            BlockState::Paragraph(a)
        },
        BlockState::Paragraph(mut a) => {
            a.push_inline_math(t);
            BlockState::Paragraph(a)
        },
        BlockState::Heading(l, mut a) => {
            a.push_inline_math(t);
            BlockState::Heading(l, a)
        },
        BlockState::CodeBlock(lang, mut code) => {
            crate::text::string_push_str(&mut code, t);
            BlockState::CodeBlock(lang, code)
        },
        BlockState::Item(mut a) => {
            a.push_inline_math(t);
            BlockState::Item(a)
        },
        BlockState::Quote(mut a) => {
            a.push_inline_math(t);
            BlockState::Quote(a)
        },
        BlockState::Table(mut tb) => {
            if tb.in_cell {
                tb.current_cell.push_inline_math(t);
            }
            BlockState::Table(tb)
        },
    }
}

fn push_break(st: BlockState, hard: bool) -> (r: BlockState)
    ensures
        r@ == break_into(st@, hard),
{
    let mb = if hard {
        "  \n"
    } else {
        "\n"
    };
    match st {
        BlockState::Empty => BlockState::Empty,
        BlockState::Paragraph(mut a) => {
            a.push_plain_break(mb);
            BlockState::Paragraph(a)
        },
        BlockState::Quote(mut a) => {
            a.push_plain_break(mb);
            BlockState::Quote(a)
        },
        BlockState::Heading(l, mut a) => {
            a.push_space();
            BlockState::Heading(l, a)
        },
        BlockState::Item(mut a) => {
            a.push_space();
            BlockState::Item(a)
        },
        BlockState::CodeBlock(lang, mut code) => {
            crate::text::string_push(&mut code, '\n');
            BlockState::CodeBlock(lang, code)
        },
        BlockState::Table(mut tb) => {
            if tb.in_cell {
                tb.current_cell.push_space();
            }
            BlockState::Table(tb)
        },
    }
}

fn inline_start_tag(st: BlockState, tag: &MdTag, Ghost(n): Ghost<nat>) -> (r: BlockState)
    requires
        depth_le(st@, n),
        n < usize::MAX,
    ensures
        r@ == inline_start(st@, *tag),
{
    match st {
        BlockState::Empty => {
            let mut a = InlineAccumulator::new();
            a.start_tag(tag);
            BlockState::Paragraph(a)
        },
        BlockState::Paragraph(mut a) => {
            a.start_tag(tag);
            BlockState::Paragraph(a)
        },
        BlockState::Heading(l, mut a) => {
            a.start_tag(tag);
            BlockState::Heading(l, a)
        },
        BlockState::Item(mut a) => {
            a.start_tag(tag);
            BlockState::Item(a)
        },
        BlockState::Quote(mut a) => {
            a.start_tag(tag);
            BlockState::Quote(a)
        },
        BlockState::Table(mut tb) => {
            tb.current_cell.start_tag(tag);
            BlockState::Table(tb)
        },
        BlockState::CodeBlock(lang, code) => BlockState::CodeBlock(lang, code),
    }
}

fn inline_end_tag(st: BlockState, tag: &MdTagEnd) -> (r: BlockState)
    ensures
        r@ == inline_end(st@, *tag),
{
    match st {
        BlockState::Empty => {
            let mut a = InlineAccumulator::new();
            a.end_tag(tag);
            BlockState::Paragraph(a)
        },
        BlockState::Paragraph(mut a) => {
            a.end_tag(tag);
            BlockState::Paragraph(a)
        },
        BlockState::Heading(l, mut a) => {
            a.end_tag(tag);
            BlockState::Heading(l, a)
        },
        BlockState::Item(mut a) => {
            a.end_tag(tag);
            BlockState::Item(a)
        },
        BlockState::Quote(mut a) => {
            a.end_tag(tag);
            BlockState::Quote(a)
        },
        BlockState::Table(mut tb) => {
            tb.current_cell.end_tag(tag);
            BlockState::Table(tb)
        },
        BlockState::CodeBlock(lang, code) => BlockState::CodeBlock(lang, code),
    }
}

fn handle_start_tag(
    st: BlockState,
    items: &mut Vec<ParsedMarkdownItem>,
    tag: &MdTag,
    skip: bool,
    Ghost(n): Ghost<nat>,
) -> (r: BlockState)
    requires
        depth_le(st@, n),
        n < usize::MAX,
    ensures
        (r@, items_view(final(items)@)) == start_step(st@, items_view(old(items)@), *tag, skip),
{
    if let BlockState::Table(mut tb) = st {
        match tag {
            MdTag::TableHead => {
                tb.in_header = true;
                tb.start_row();
            },
            MdTag::TableRow => tb.start_row(),
            MdTag::TableCell => tb.start_cell(),
            MdTag::Paragraph => {},
            _ => {
                if tb.in_cell {
                    tb.current_cell.start_tag(tag);
                }
            },
        }
        return BlockState::Table(tb);
    }
    match tag {
        MdTag::Paragraph => {
            match st {
                BlockState::Item(a) => BlockState::Item(a),
                BlockState::Quote(a) => BlockState::Quote(a),
                other => {
                    flush_state_sendable(other, items, skip);
                    BlockState::Paragraph(InlineAccumulator::new())
                },
            }
        },
        MdTag::Heading(l) => {
            flush_state_sendable(st, items, skip);
            BlockState::Heading(*l, InlineAccumulator::new())
        },
        MdTag::CodeBlock(info) => {
            flush_state_sendable(st, items, skip);
            let lang = match info {
                Some(s) => owned(s.as_str()),
                None => String::new(),
            };
            proof {
                reveal_strlit("");
                assert(""@ =~= Seq::<char>::empty());
            }
            BlockState::CodeBlock(lang, String::new())
        },
        MdTag::Item => {
            flush_state_sendable(st, items, skip);
            BlockState::Item(InlineAccumulator::new())
        },
        MdTag::BlockQuote => {
            flush_state_sendable(st, items, skip);
            BlockState::Quote(InlineAccumulator::new())
        },
        MdTag::Table(aligns) => {
            flush_state_sendable(st, items, skip);
            BlockState::Table(TableBuilder::new(aligns))
        },
        MdTag::Emphasis | MdTag::Strong | MdTag::Strikethrough | MdTag::Link(_) | MdTag::Image(_) => {
            inline_start_tag(st, tag, Ghost(n))
        },
        _ => st,
    }
}

fn handle_end_tag(
    st: BlockState,
    items: &mut Vec<ParsedMarkdownItem>,
    tag: &MdTagEnd,
    skip: bool,
) -> (r: BlockState)
    ensures
        (r@, items_view(final(items)@)) == end_step(st@, items_view(old(items)@), *tag, skip),
{
    if let BlockState::Table(mut tb) = st {
        match tag {
            MdTagEnd::TableCell => tb.end_cell(),
            MdTagEnd::TableRow => tb.end_row(),
            MdTagEnd::TableHead => {
                if tb.current_row.len() > 0 {
                    tb.end_row();
                }
                tb.in_header = false;
            },
            MdTagEnd::Table => {
                flush_state_sendable(BlockState::Table(tb), items, skip);
                return BlockState::Empty;
            },
            MdTagEnd::Paragraph => {},
            _ => {
                if tb.in_cell {
                    tb.current_cell.end_tag(tag);
                }
            },
        }
        return BlockState::Table(tb);
    }
    match tag {
        MdTagEnd::Paragraph => {
            match st {
                BlockState::Item(a) => BlockState::Item(a),
                BlockState::Quote(a) => BlockState::Quote(a),
                other => {
                    flush_state_sendable(other, items, skip);
                    BlockState::Empty
                },
            }
        },
        MdTagEnd::Heading | MdTagEnd::CodeBlock | MdTagEnd::Item | MdTagEnd::BlockQuote => {
            flush_state_sendable(st, items, skip);
            BlockState::Empty
        },
        MdTagEnd::Emphasis | MdTagEnd::Strong | MdTagEnd::Strikethrough | MdTagEnd::Link
        | MdTagEnd::Image => inline_end_tag(st, tag),
        _ => st,
    }
}

fn handle_event(
    st: BlockState,
    items: &mut Vec<ParsedMarkdownItem>,
    ev: &MdEvent,
    skip: bool,
    Ghost(n): Ghost<nat>,
) -> (r: BlockState)
    requires
        depth_le(st@, n),
        n < usize::MAX,
    ensures
        (r@, items_view(final(items)@)) == step(st@, items_view(old(items)@), *ev, skip),
{
    match ev {
        MdEvent::Start(tag) => handle_start_tag(st, items, tag, skip, Ghost(n)),
        MdEvent::End(tag) => handle_end_tag(st, items, tag, skip),
        MdEvent::Text(t) => push_text(st, t.as_str()),
        MdEvent::Code(t) => push_code(st, t.as_str()),
        MdEvent::InlineMath(t) => push_inline_math(st, t.as_str()),
        MdEvent::DisplayMath(t) => {
            flush_state_sendable(st, items, skip);
            let mut item = new_item("math", owned(t.as_str()), String::new());
            proof {
                reveal_strlit("");
                assert(""@ =~= Seq::<char>::empty());
            }
            item.math_display = true;
            proof {
                lemma_items_view_push(items@, item);
            }
            items.push(item);
            BlockState::Empty
        },
        MdEvent::SoftBreak => push_break(st, false),
        MdEvent::HardBreak => push_break(st, true),
        MdEvent::Rule => {
            flush_state_sendable(st, items, skip);
            let item = new_item("rule", String::new(), String::new());
            proof {
                reveal_strlit("");
                assert(""@ =~= Seq::<char>::empty());
                lemma_items_view_push(items@, item);
            }
            items.push(item);
            BlockState::Empty
        },
        MdEvent::TaskListMarker(c) => {
            let marker = if *c {
                "[x] "
            } else {
                "[ ] "
            };
            push_text(st, marker)
        },
        MdEvent::Html(h) | MdEvent::InlineHtml(h) => {
            if looks_like_svg(h.as_str()) {
                flush_state_sendable(st, items, skip);
                let item = new_item("svg", trimmed(h.as_str()), owned("svg"));
                proof {
                    lemma_items_view_push(items@, item);
                }
                items.push(item);
                BlockState::Empty
            } else {
                push_text(st, h.as_str())
            }
        },
        MdEvent::FootnoteReference(r) => {
            let mut t = owned("[^");
            crate::text::string_push_str(&mut t, r.as_str());
            crate::text::string_push_str(&mut t, "]");
            push_text(st, t.as_str())
        },
    }
}

/// The display blocks of a markdown event stream.
pub fn parse_events(events: &Vec<MdEvent>, skip_highlighting: bool) -> (r: Vec<ParsedMarkdownItem>)
    ensures
        items_view(r@) == events_items(events@, skip_highlighting),
{
    let mut items: Vec<ParsedMarkdownItem> = Vec::new();
    let mut st = BlockState::Empty;
    let mut i: usize = 0;
    assert(items_view(items@) =~= seq![]);
    while i < events.len()
        invariant
            i <= events.len(),
            depth_le(st@, i as nat),
            (st@, items_view(items@)) == run(events@.take(i as int), skip_highlighting),
        decreases events.len() - i,
    {
        proof {
            assert(events@.take(i + 1).drop_last() =~= events@.take(i as int));
            assert(events@.take(i + 1).last() == events@[i as int]);
            lemma_step_depth(st@, items_view(items@), events@[i as int], skip_highlighting, i as nat);
        }
        st = handle_event(st, &mut items, &events[i], skip_highlighting, Ghost(i as nat));
        i += 1;
    }
    assert(events@.take(events.len() as int) =~= events@);
    flush_state_sendable(st, &mut items, skip_highlighting);
    if items.len() == 0 {
        let item = new_item("p", String::new(), String::new());
        proof {
            reveal_strlit("");
            assert(""@ =~= Seq::<char>::empty());
            lemma_items_view_push(items@, item);
        }
        items.push(item);
        assert(items_view(items@) =~= seq![item_default("p"@, seq![], seq![], seq![])]);
    }
    items
}

fn parse_markdown_inner_sendable(markdown_text: &str, skip_highlighting: bool) -> (r: Vec<
    ParsedMarkdownItem,
>)
    ensures
        items_view(r@) == message_items(markdown_text@, skip_highlighting),
{
    let pre = preprocess_markdown(markdown_text);
    if is_standalone_svg_document(pre.as_str()) {
        let item = new_item("svg", trimmed(pre.as_str()), owned("svg"));
        let mut v: Vec<ParsedMarkdownItem> = Vec::new();
        proof {
            lemma_items_view_push(v@, item);
        }
        v.push(item);
        assert(items_view(v@) =~= seq![item@]);
        return v;
    }
    let events = cmark_parse(pre.as_str(), MARKDOWN_OPTIONS);
    parse_events(&events, skip_highlighting)
}

/// Parses an assistant message into display blocks, code highlighted.
pub fn parse_markdown_sendable(markdown_text: &str) -> (r: Vec<ParsedMarkdownItem>)
    ensures
        items_view(r@) == message_items(markdown_text@, false),
{
    parse_markdown_inner_sendable(markdown_text, false)
}

/// Parses a message that is still streaming in: the same blocks, with code
/// left unhighlighted.
pub fn parse_markdown_streaming_sendable(markdown_text: &str) -> (r: Vec<ParsedMarkdownItem>)
    ensures
        items_view(r@) == message_items(markdown_text@, true),
{
    parse_markdown_inner_sendable(markdown_text, true)
}

// ---------------------------------------------------------------------------
// Streaming and final parses
// ---------------------------------------------------------------------------

/// An item without highlighted code lines.
pub open spec fn strip(it: ItemView) -> ItemView {
    ItemView { code_lines: seq![], ..it }
}

pub open spec fn strips(items: Seq<ItemView>) -> Seq<ItemView> {
    items.map_values(|it: ItemView| strip(it))
}

proof fn lemma_strips_push(items: Seq<ItemView>, it: ItemView)
    ensures
        strips(items.push(it)) == strips(items).push(strip(it)),
{
    assert(strips(items.push(it)) =~= strips(items).push(strip(it)));
}

proof fn lemma_push_opt_strips(items: Seq<ItemView>, o: Option<ItemView>)
    requires
        o matches Some(it) ==> it.code_lines == Seq::<Seq<(Seq<char>, (u8, u8, u8, u8))>>::empty(),
    ensures
        push_opt(strips(items), o) == strips(push_opt(items, o)),
{
    match o {
        Some(it) => {
            lemma_strips_push(items, it);
            assert(strip(it) =~~= it);
        },
        None => {},
    }
}

proof fn lemma_flush_strips(st: BlockView, items: Seq<ItemView>)
    ensures
        flush(st, strips(items), true) == strips(flush(st, items, false)),
{
    match st {
        BlockView::Empty => {},
        BlockView::Paragraph(a) => {
            lemma_push_opt_strips(items, from_inline("p"@, a));
        },
        BlockView::Heading(l, a) => {
            lemma_push_opt_strips(items, trim_item(from_inline(heading_kind(l), a), false));
        },
        BlockView::CodeBlock(lang, text) => {
            lemma_strips_push(items, code_item(lang, text, false));
            assert(strip(code_item(lang, text, false)) =~~= code_item(lang, text, true));
        },
        BlockView::Item(a) => {
            lemma_push_opt_strips(items, trim_item(from_inline("bullet"@, a), true));
        },
        BlockView::Quote(a) => {
            lemma_push_opt_strips(items, trim_item(from_inline("quote"@, a), true));
        },
        BlockView::Table(t) => {
            lemma_push_opt_strips(items, tb_into_item(t));
        },
    }
}

proof fn lemma_step_strips(st: BlockView, items: Seq<ItemView>, ev: MdEvent)
    ensures
        step(st, strips(items), ev, true) == (step(st, items, ev, false).0, strips(
            step(st, items, ev, false).1,
        )),
{
    lemma_flush_strips(st, items);
    match ev {
        MdEvent::Start(tag) => {
            match st {
                BlockView::Table(_) => {},
                _ => {},
            }
        },
        MdEvent::End(tag) => {
            match st {
                BlockView::Table(tb) => {
                    lemma_flush_strips(BlockView::Table(tb), items);
                },
                _ => {},
            }
        },
        MdEvent::DisplayMath(t) => {
            let it = ItemView { math_display: true, ..item_default("math"@, t@, seq![], seq![]) };
            lemma_strips_push(flush(st, items, false), it);
            assert(strip(it) =~~= it);
        },
        MdEvent::Rule => {
            let it = item_default("rule"@, seq![], seq![], seq![]);
            lemma_strips_push(flush(st, items, false), it);
            assert(strip(it) =~~= it);
        },
        MdEvent::Html(h) => {
            let it = item_default("svg"@, trim(h@), "svg"@, seq![]);
            lemma_strips_push(flush(st, items, false), it);
            assert(strip(it) =~~= it);
        },
        MdEvent::InlineHtml(h) => {
            let it = item_default("svg"@, trim(h@), "svg"@, seq![]);
            lemma_strips_push(flush(st, items, false), it);
            assert(strip(it) =~~= it);
        },
        _ => {},
    }
}

proof fn lemma_run_strips(evs: Seq<MdEvent>)
    ensures
        run(evs, true) == (run(evs, false).0, strips(run(evs, false).1)),
    decreases evs.len(),
{
    if evs.len() == 0 {
        assert(strips(seq![]) =~= seq![]);
    } else {
        lemma_run_strips(evs.drop_last());
        let (st, items) = run(evs.drop_last(), false);
        lemma_step_strips(st, items, evs.last());
    }
}

/// The blocks of a message still streaming are the blocks of the finished
/// message, code blocks only lacking their highlighted lines.
pub proof fn lemma_streaming_matches_final(markdown: Seq<char>)
    ensures
        message_items(markdown, true) == strips(message_items(markdown, false)),
{
    let pre = preprocess(markdown);
    if svg_document(pre) {
        let it = item_default("svg"@, trim(pre), "svg"@, seq![]);
        assert(strip(it) =~~= it);
        assert(strips(seq![it]) =~= seq![it]);
    } else {
        let evs = cmark_events(pre, MARKDOWN_OPTIONS);
        lemma_run_strips(evs);
        let (st, items) = run(evs, false);
        lemma_flush_strips(st, items);
        let out = flush(st, items, false);
        if out.len() == 0 {
            let it = item_default("p"@, seq![], seq![], seq![]);
            assert(strip(it) =~~= it);
            assert(strips(out) =~= seq![]);
            assert(strips(seq![it]) =~= seq![it]);
        }
    }
}

} // verus!
