//! The block items an assistant message parses into.

use super::inline::{escape_inline, escape_inline_markdown, spans_view, ParsedInlineSpan, SpanView};
use crate::main_content::tools::diff::{diff_lines_view, ParsedDiffLine};
use crate::text::owned;
use vstd::prelude::*;

verus! {

/// One highlighted run of code with its ARGB color.
#[derive(Debug)]
pub struct ParsedCodeToken {
    pub text: String,
    pub color: (u8, u8, u8, u8),
}

/// One highlighted line of code.
#[derive(Debug)]
pub struct ParsedCodeLine {
    pub tokens: Vec<ParsedCodeToken>,
}

pub open spec fn token_view(t: ParsedCodeToken) -> (Seq<char>, (u8, u8, u8, u8)) {
    (t.text@, t.color)
}

pub open spec fn line_view(l: ParsedCodeLine) -> Seq<(Seq<char>, (u8, u8, u8, u8))> {
    l.tokens@.map_values(|t: ParsedCodeToken| token_view(t))
}

pub open spec fn code_lines_view(v: Seq<ParsedCodeLine>) -> Seq<
    Seq<(Seq<char>, (u8, u8, u8, u8))>,
> {
    v.map_values(|l: ParsedCodeLine| line_view(l))
}

/// One table cell.
#[derive(Debug, Clone, PartialEq, Eq)]
pub struct ParsedTableCell {
    pub text: String,
    pub inline_markdown: String,
    pub inline_spans: Vec<ParsedInlineSpan>,
    pub alignment: String,
    pub width_px: i32,
}

/// The value of a [`ParsedTableCell`].
pub struct CellView {
    pub text: Seq<char>,
    pub inline_markdown: Seq<char>,
    pub inline_spans: Seq<SpanView>,
    pub alignment: Seq<char>,
    pub width_px: i32,
}

impl View for ParsedTableCell {
    type V = CellView;

    open spec fn view(&self) -> CellView {
        CellView {
            text: self.text@,
            inline_markdown: self.inline_markdown@,
            inline_spans: spans_view(self.inline_spans@),
            alignment: self.alignment@,
            width_px: self.width_px,
        }
    }
}

pub open spec fn cells_view(v: Seq<ParsedTableCell>) -> Seq<CellView> {
    v.map_values(|c: ParsedTableCell| c@)
}

/// One table row.
#[derive(Debug, Clone, PartialEq, Eq)]
pub struct ParsedTableRow {
    pub cells: Vec<ParsedTableCell>,
}

pub open spec fn rows_view(v: Seq<ParsedTableRow>) -> Seq<Seq<CellView>> {
    v.map_values(|r: ParsedTableRow| cells_view(r.cells@))
}

/// A positioned diagram node.
#[derive(Debug, Clone, PartialEq, Eq)]
pub struct ParsedMermaidNode {
    pub id: String,
    pub label: String,
    pub x: i32,
    pub y: i32,
    pub width_px: i32,
    pub shape: String,
}

/// The value of a [`ParsedMermaidNode`].
pub struct NodeView {
    pub id: Seq<char>,
    pub label: Seq<char>,
    pub x: i32,
    pub y: i32,
    pub width_px: i32,
    pub shape: Seq<char>,
}

impl View for ParsedMermaidNode {
    type V = NodeView;

    open spec fn view(&self) -> NodeView {
        NodeView {
            id: self.id@,
            label: self.label@,
            x: self.x,
            y: self.y,
            width_px: self.width_px,
            shape: self.shape@,
        }
    }
}

pub open spec fn nodes_view(v: Seq<ParsedMermaidNode>) -> Seq<NodeView> {
    v.map_values(|n: ParsedMermaidNode| n@)
}

/// A rendered diagram edge: its line, its arrow head and its label.
#[derive(Debug, Clone, PartialEq, Eq)]
pub struct ParsedMermaidEdge {
    pub path: String,
    pub arrow_path: String,
    pub label: String,
    pub label_x: i32,
    pub label_y: i32,
}

/// The value of a [`ParsedMermaidEdge`].
pub struct EdgeView {
    pub path: Seq<char>,
    pub arrow_path: Seq<char>,
    pub label: Seq<char>,
    pub label_x: i32,
    pub label_y: i32,
}

impl View for ParsedMermaidEdge {
    type V = EdgeView;

    open spec fn view(&self) -> EdgeView {
        EdgeView {
            path: self.path@,
            arrow_path: self.arrow_path@,
            label: self.label@,
            label_x: self.label_x,
            label_y: self.label_y,
        }
    }
}

pub open spec fn edges_view(v: Seq<ParsedMermaidEdge>) -> Seq<EdgeView> {
    v.map_values(|e: ParsedMermaidEdge| e@)
}

/// A laid-out diagram.
#[derive(Debug, Clone, Default, PartialEq, Eq)]
pub struct ParsedMermaidDiagram {
    pub nodes: Vec<ParsedMermaidNode>,
    pub edges: Vec<ParsedMermaidEdge>,
    pub width_px: i32,
    pub height_px: i32,
}

/// The value of a [`ParsedMermaidDiagram`].
pub struct DiagramView {
    pub nodes: Seq<NodeView>,
    pub edges: Seq<EdgeView>,
    pub width_px: i32,
    pub height_px: i32,
}

impl View for ParsedMermaidDiagram {
    type V = DiagramView;

    open spec fn view(&self) -> DiagramView {
        DiagramView {
            nodes: nodes_view(self.nodes@),
            edges: edges_view(self.edges@),
            width_px: self.width_px,
            height_px: self.height_px,
        }
    }
}

/// One block of a parsed assistant message.
#[derive(Debug)]
pub struct ParsedMarkdownItem {
    pub kind: String,
    pub text: String,
    pub inline_markdown: String,
    pub inline_spans: Vec<ParsedInlineSpan>,
    pub lang: String,
    pub code_lines: Vec<ParsedCodeLine>,
    pub table_headers: Vec<ParsedTableCell>,
    pub table_rows: Vec<ParsedTableRow>,
    pub math_display: bool,
    pub mermaid_nodes: Vec<ParsedMermaidNode>,
    pub mermaid_edges: Vec<ParsedMermaidEdge>,
    pub mermaid_width_px: i32,
    pub mermaid_height_px: i32,
    pub tool_name: String,
    pub tool_title: String,
    pub tool_args: String,
    pub tool_result: String,
    pub tool_status: String,
    pub tool_is_diff: bool,
    pub tool_diff_lines: Vec<ParsedDiffLine>,
    pub tool_added_count: i32,
    pub tool_deleted_count: i32,
    pub tool_call_id: String,
    pub permission_id: String,
    pub permission_tool: String,
    pub permission_path: String,
    pub permission_reason: String,
    pub permission_args: String,
    pub permission_status: String,
}

/// The value of a [`ParsedMarkdownItem`].
pub struct ItemView {
    pub kind: Seq<char>,
    pub text: Seq<char>,
    pub inline_markdown: Seq<char>,
    pub inline_spans: Seq<SpanView>,
    pub lang: Seq<char>,
    pub code_lines: Seq<Seq<(Seq<char>, (u8, u8, u8, u8))>>,
    pub table_headers: Seq<CellView>,
    pub table_rows: Seq<Seq<CellView>>,
    pub math_display: bool,
    pub mermaid_nodes: Seq<NodeView>,
    pub mermaid_edges: Seq<EdgeView>,
    pub mermaid_width_px: i32,
    pub mermaid_height_px: i32,
    pub tool_name: Seq<char>,
    pub tool_title: Seq<char>,
    pub tool_args: Seq<char>,
    pub tool_result: Seq<char>,
    pub tool_status: Seq<char>,
    pub tool_is_diff: bool,
    pub tool_diff_lines: Seq<(Seq<char>, Seq<char>)>,
    pub tool_added_count: i32,
    pub tool_deleted_count: i32,
    pub tool_call_id: Seq<char>,
    pub permission_id: Seq<char>,
    pub permission_tool: Seq<char>,
    pub permission_path: Seq<char>,
    pub permission_reason: Seq<char>,
    pub permission_args: Seq<char>,
    pub permission_status: Seq<char>,
}

impl View for ParsedMarkdownItem {
    type V = ItemView;

    open spec fn view(&self) -> ItemView {
        ItemView {
            kind: self.kind@,
            text: self.text@,
            inline_markdown: self.inline_markdown@,
            inline_spans: spans_view(self.inline_spans@),
            lang: self.lang@,
            code_lines: code_lines_view(self.code_lines@),
            table_headers: cells_view(self.table_headers@),
            table_rows: rows_view(self.table_rows@),
            math_display: self.math_display,
            mermaid_nodes: nodes_view(self.mermaid_nodes@),
            mermaid_edges: edges_view(self.mermaid_edges@),
            mermaid_width_px: self.mermaid_width_px,
            mermaid_height_px: self.mermaid_height_px,
            tool_name: self.tool_name@,
            tool_title: self.tool_title@,
            tool_args: self.tool_args@,
            tool_result: self.tool_result@,
            tool_status: self.tool_status@,
            tool_is_diff: self.tool_is_diff,
            tool_diff_lines: diff_lines_view(self.tool_diff_lines@),
            tool_added_count: self.tool_added_count,
            tool_deleted_count: self.tool_deleted_count,
            tool_call_id: self.tool_call_id@,
            permission_id: self.permission_id@,
            permission_tool: self.permission_tool@,
            permission_path: self.permission_path@,
            permission_reason: self.permission_reason@,
            permission_args: self.permission_args@,
            permission_status: self.permission_status@,
        }
    }
}

pub open spec fn items_view(v: Seq<ParsedMarkdownItem>) -> Seq<ItemView> {
    v.map_values(|i: ParsedMarkdownItem| i@)
}

pub proof fn lemma_items_view_push(v: Seq<ParsedMarkdownItem>, x: ParsedMarkdownItem)
    ensures
        items_view(v.push(x)) == items_view(v).push(x@),
{
    assert(items_view(v.push(x)) =~= items_view(v).push(x@));
}

/// A block of `kind` with the given text, language and code lines, its
/// inline markdown being the escaped text and everything else empty.
pub open spec fn item_default(
    kind: Seq<char>,
    text: Seq<char>,
    lang: Seq<char>,
    code_lines: Seq<Seq<(Seq<char>, (u8, u8, u8, u8))>>,
) -> ItemView {
    ItemView {
        kind,
        text,
        inline_markdown: escape_inline(text),
        inline_spans: seq![],
        lang,
        code_lines,
        table_headers: seq![],
        table_rows: seq![],
        math_display: false,
        mermaid_nodes: seq![],
        mermaid_edges: seq![],
        mermaid_width_px: 0,
        mermaid_height_px: 0,
        tool_name: seq![],
        tool_title: seq![],
        tool_args: seq![],
        tool_result: seq![],
        tool_status: seq![],
        tool_is_diff: false,
        tool_diff_lines: seq![],
        tool_added_count: 0,
        tool_deleted_count: 0,
        tool_call_id: seq![],
        permission_id: seq![],
        permission_tool: seq![],
        permission_path: seq![],
        permission_reason: seq![],
        permission_args: seq![],
        permission_status: seq![],
    }
}

impl ParsedMarkdownItem {
    pub fn new_default(kind: String, text: String, lang: String, code_lines: Vec<ParsedCodeLine>) -> (r:
        Self)
        ensures
            r@ == item_default(kind@, text@, lang@, code_lines_view(code_lines@)),
    {
        let r = ParsedMarkdownItem {
            kind,
            inline_markdown: escape_inline_markdown(text.as_str()),
            inline_spans: Vec::new(),
            text,
            lang,
            code_lines,
            table_headers: Vec::new(),
            table_rows: Vec::new(),
            math_display: false,
            mermaid_nodes: Vec::new(),
            mermaid_edges: Vec::new(),
            mermaid_width_px: 0,
            mermaid_height_px: 0,
            tool_name: String::new(),
            tool_title: String::new(),
            tool_args: String::new(),
            tool_result: String::new(),
            tool_status: String::new(),
            tool_is_diff: false,
            tool_diff_lines: Vec::new(),
            tool_added_count: 0,
            tool_deleted_count: 0,
            tool_call_id: String::new(),
            permission_id: String::new(),
            permission_tool: String::new(),
            permission_path: String::new(),
            permission_reason: String::new(),
            permission_args: String::new(),
            permission_status: String::new(),
        };
        assert(r@.inline_spans =~= seq![]);
        assert(r@.table_headers =~= seq![]);
        assert(r@.table_rows =~= seq![]);
        assert(r@.mermaid_nodes =~= seq![]);
        assert(r@.mermaid_edges =~= seq![]);
        assert(r@.tool_diff_lines =~= seq![]);
        r
    }
}

/// `kind` from a string literal, text and language given, no code lines.
pub fn new_item(kind: &str, text: String, lang: String) -> (r: ParsedMarkdownItem)
    ensures
        r@ == item_default(kind@, text@, lang@, seq![]),
{
    let lines: Vec<ParsedCodeLine> = Vec::new();
    assert(code_lines_view(lines@) =~= seq![]);
    ParsedMarkdownItem::new_default(owned(kind), text, lang, lines)
}

} // verus!
