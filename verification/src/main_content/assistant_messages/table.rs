//! Table blocks: cell accumulation and column widths.

use super::accumulator::{acc_empty, AccView, InlineAccumulator};
use super::cmark::MdAlign;
use super::inline::{
    copy_spans, should_render_inline_spans, spans_styled, spans_view, trim_inline_spans,
    trim_leading_spans, trim_trailing_spans,
};
use super::items::{
    cells_view, item_default, new_item, rows_view, CellView, ItemView, ParsedMarkdownItem,
    ParsedTableCell, ParsedTableRow,
};
use crate::text::{lines, lines_of, owned, trim, trimmed, vv};
use vstd::prelude::*;

verus! {

// ---------------------------------------------------------------------------
// Cell widths
// ---------------------------------------------------------------------------

/// Length of the longest of `ls`, 0 when there is none.
pub open spec fn max_len(ls: Seq<Seq<char>>) -> nat
    decreases ls.len(),
{
    if ls.len() == 0 {
        0
    } else {
        let m = max_len(ls.drop_last());
        if ls.last().len() > m {
            ls.last().len()
        } else {
            m
        }
    }
}

pub open spec fn clamp(x: int, lo: int, hi: int) -> int {
    if x < lo {
        lo
    } else if x > hi {
        hi
    } else {
        x
    }
}

pub open spec fn max_int(a: int, b: int) -> int {
    if a >= b {
        a
    } else {
        b
    }
}

/// Display width of a cell: 8 px per character of its longest line plus
/// 34 px of padding, kept between 96 and 320 px.
pub open spec fn cell_width(text: Seq<char>) -> int {
    clamp((max_len(lines(text)) * 8 + 34) as int, 96, 320)
}

pub fn width_for_cell(text: &str) -> (w: i32)
    ensures
        w == cell_width(text@),
        96 <= w <= 320,
{
    let v = crate::text::chars_of(text);
    let ls = lines_of(&v);
    let mut longest: usize = 0;
    let mut i: usize = 0;
    while i < ls.len()
        invariant
            i <= ls.len(),
            longest == max_len(vv(ls@).take(i as int)),
        decreases ls.len() - i,
    {
        proof {
            assert(vv(ls@).take(i + 1).drop_last() =~= vv(ls@).take(i as int));
            assert(vv(ls@).take(i + 1).last() == ls@[i as int]@);
        }
        if ls[i].len() > longest {
            longest = ls[i].len();
        }
        i += 1;
    }
    assert(vv(ls@).take(ls.len() as int) =~= vv(ls@));
    if longest >= 36 {
        320
    } else {
        let x = (longest as i32) * 8 + 34;
        if x < 96 {
            96
        } else {
            x
        }
    }
}

// ---------------------------------------------------------------------------
// Alignment and padding
// ---------------------------------------------------------------------------

pub open spec fn align_text(a: MdAlign) -> Seq<char> {
    match a {
        MdAlign::Right => "right"@,
        MdAlign::Center => "center"@,
        _ => "left"@,
    }
}

/// The alignment a table column shows: `:-:` centres it, `--:` aligns it
/// right, `:--` or a plain `---` align it left; the three names differ.
pub proof fn lemma_alignment_names(a: MdAlign)
    ensures
        a is Center ==> align_text(a) == "center"@,
        a is Right ==> align_text(a) == "right"@,
        a is Left || a is Unspecified ==> align_text(a) == "left"@,
        "center"@ != "right"@ && "center"@ != "left"@ && "right"@ != "left"@,
{
    reveal_strlit("center");
    reveal_strlit("right");
    reveal_strlit("left");
    assert("center"@.len() != "right"@.len() && "center"@.len() != "left"@.len());
    assert("right"@.len() != "left"@.len());
}

pub fn alignment_to_string(a: MdAlign) -> (r: String)
    ensures
        r@ == align_text(a),
{
    match a {
        MdAlign::Right => owned("right"),
        MdAlign::Center => owned("center"),
        _ => owned("left"),
    }
}

/// The alignment of column `i`, left when none was given.
pub open spec fn align_at(aligns: Seq<Seq<char>>, i: int) -> Seq<char> {
    if 0 <= i < aligns.len() {
        aligns[i]
    } else {
        "left"@
    }
}

pub fn alignment_at(aligns: &Vec<String>, i: usize) -> (r: String)
    ensures
        r@ == align_at(crate::main_content::assistant_messages::inline::strings_view(aligns@), i as int),
{
    if i < aligns.len() {
        aligns[i].clone()
    } else {
        owned("left")
    }
}

pub open spec fn empty_cell(alignment: Seq<char>) -> CellView {
    CellView {
        text: seq![],
        inline_markdown: seq![],
        inline_spans: seq![],
        alignment,
        width_px: 96,
    }
}

/// `cells` extended with empty cells up to `count` columns.
pub open spec fn pad(cells: Seq<CellView>, count: nat, aligns: Seq<Seq<char>>) -> Seq<CellView>
    decreases count - cells.len(),
{
    if cells.len() < count {
        pad(cells.push(empty_cell(align_at(aligns, cells.len() as int))), count, aligns)
    } else {
        cells
    }
}

pub proof fn lemma_pad_len(cells: Seq<CellView>, count: nat, aligns: Seq<Seq<char>>)
    ensures
        pad(cells, count, aligns).len() == if cells.len() < count {
            count
        } else {
            cells.len()
        },
    decreases count - cells.len(),
{
    if cells.len() < count {
        lemma_pad_len(cells.push(empty_cell(align_at(aligns, cells.len() as int))), count, aligns);
    }
}

pub fn pad_cells(cells: Vec<ParsedTableCell>, count: usize, aligns: &Vec<String>) -> (r: Vec<
    ParsedTableCell,
>)
    ensures
        cells_view(r@) == pad(
            cells_view(cells@),
            count as nat,
            crate::main_content::assistant_messages::inline::strings_view(aligns@),
        ),
{
    let ghost al = crate::main_content::assistant_messages::inline::strings_view(aligns@);
    let ghost goal = pad(cells_view(cells@), count as nat, al);
    let mut cells = cells;
    while cells.len() < count
        invariant
            pad(cells_view(cells@), count as nat, al) == goal,
            al == crate::main_content::assistant_messages::inline::strings_view(aligns@),
        decreases count - cells.len(),
    {
        let alignment = alignment_at(aligns, cells.len());
        let cell = ParsedTableCell {
            text: String::new(),
            inline_markdown: String::new(),
            inline_spans: Vec::new(),
            alignment,
            width_px: 96,
        };
        proof {
            assert(cell@.inline_spans =~= seq![]);
            assert(cell@ == empty_cell(align_at(al, cells@.len() as int)));
            assert(cells_view(cells@.push(cell)) =~= cells_view(cells@).push(cell@));
        }
        cells.push(cell);
    }
    cells
}

// ---------------------------------------------------------------------------
// Column widths
// ---------------------------------------------------------------------------

/// Width wanted by column `col` of one row (96 px when the row is shorter).
pub open spec fn cw(cells: Seq<CellView>, col: int) -> int {
    if 0 <= col < cells.len() {
        cell_width(cells[col].text)
    } else {
        96
    }
}

pub open spec fn rows_col_width(rows: Seq<Seq<CellView>>, col: int) -> int
    decreases rows.len(),
{
    if rows.len() == 0 {
        96
    } else {
        max_int(rows_col_width(rows.drop_last(), col), cw(rows.last(), col))
    }
}

/// Width of column `col`: the widest of its header and body cells, at least 96 px.
pub open spec fn col_width(headers: Seq<CellView>, rows: Seq<Seq<CellView>>, col: int) -> int {
    max_int(max_int(96, cw(headers, col)), rows_col_width(rows, col))
}

pub proof fn lemma_rows_col_width_bounds(rows: Seq<Seq<CellView>>, col: int)
    ensures
        96 <= rows_col_width(rows, col) <= 320,
    decreases rows.len(),
{
    if rows.len() > 0 {
        lemma_rows_col_width_bounds(rows.drop_last(), col);
    }
}

/// Every cell of `cells` given the width of its column.
pub open spec fn set_widths(
    cells: Seq<CellView>,
    headers: Seq<CellView>,
    rows: Seq<Seq<CellView>>,
) -> Seq<CellView> {
    Seq::new(
        cells.len(),
        |k: int| CellView { width_px: col_width(headers, rows, k) as i32, ..cells[k] },
    )
}

pub open spec fn max_row_len(rows: Seq<Seq<CellView>>) -> nat
    decreases rows.len(),
{
    if rows.len() == 0 {
        0
    } else {
        let m = max_row_len(rows.drop_last());
        if rows.last().len() > m {
            rows.last().len()
        } else {
            m
        }
    }
}

/// The number of columns: the longest of the header, the rows and the
/// alignment list.
pub open spec fn column_count(headers: Seq<CellView>, rows: Seq<Seq<CellView>>, n_aligns: nat) -> nat {
    let a = if headers.len() >= max_row_len(rows) {
        headers.len()
    } else {
        max_row_len(rows)
    };
    if a >= n_aligns {
        a
    } else {
        n_aligns
    }
}

/// Pads every row to the column count and gives every cell its column's width.
pub open spec fn normalize(
    headers: Seq<CellView>,
    rows: Seq<Seq<CellView>>,
    aligns: Seq<Seq<char>>,
) -> (Seq<CellView>, Seq<Seq<CellView>>) {
    let cc = column_count(headers, rows, aligns.len());
    if cc == 0 {
        (headers, rows)
    } else {
        let ph = pad(headers, cc, aligns);
        let pr = rows.map_values(|r: Seq<CellView>| pad(r, cc, aligns));
        (set_widths(ph, ph, pr), pr.map_values(|r: Seq<CellView>| set_widths(r, ph, pr)))
    }
}

fn with_widths(cells: &Vec<ParsedTableCell>, widths: &Vec<i32>) -> (r: Vec<ParsedTableCell>)
    requires
        cells.len() <= widths.len(),
    ensures
        r@.len() == cells@.len(),
        forall|k: int|
            0 <= k < cells@.len() ==> (#[trigger] cells_view(r@)[k]) == (CellView {
                width_px: widths@[k],
                ..cells_view(cells@)[k]
            }),
{
    let mut r: Vec<ParsedTableCell> = Vec::new();
    let mut i: usize = 0;
    while i < cells.len()
        invariant
            i <= cells.len() <= widths.len(),
            r@.len() == i,
            forall|k: int|
                0 <= k < i ==> (#[trigger] cells_view(r@)[k]) == (CellView {
                    width_px: widths@[k],
                    ..cells_view(cells@)[k]
                }),
        decreases cells.len() - i,
    {
        let c = &cells[i];
        let cell = ParsedTableCell {
            text: c.text.clone(),
            inline_markdown: c.inline_markdown.clone(),
            inline_spans: copy_spans(&c.inline_spans),
            alignment: c.alignment.clone(),
            width_px: widths[i],
        };
        let ghost r0 = r@;
        r.push(cell);
        proof {
            assert forall|k: int| 0 <= k < i + 1 implies (#[trigger] cells_view(r@)[k]) == (CellView {
                width_px: widths@[k],
                ..cells_view(cells@)[k]
            }) by {
                if k < i {
                    assert(cells_view(r@)[k] == cells_view(r0)[k]);
                }
            }
        }
        i += 1;
    }
    r
}

pub fn normalize_table_widths(
    headers: Vec<ParsedTableCell>,
    rows: Vec<ParsedTableRow>,
    alignments: &Vec<String>,
) -> (r: (Vec<ParsedTableCell>, Vec<ParsedTableRow>))
    ensures
        (cells_view(r.0@), rows_view(r.1@)) == normalize(
            cells_view(headers@),
            rows_view(rows@),
            crate::main_content::assistant_messages::inline::strings_view(alignments@),
        ),
{
    let ghost al = crate::main_content::assistant_messages::inline::strings_view(alignments@);
    let ghost hv = cells_view(headers@);
    let ghost rv = rows_view(rows@);
    // column count
    let mut max_row: usize = 0;
    let mut i: usize = 0;
    while i < rows.len()
        invariant
            i <= rows.len(),
            rv == rows_view(rows@),
            max_row == max_row_len(rv.take(i as int)),
        decreases rows.len() - i,
    {
        proof {
            assert(rv.take(i + 1).drop_last() =~= rv.take(i as int));
        }
        if rows[i].cells.len() > max_row {
            max_row = rows[i].cells.len();
        }
        i += 1;
    }
    assert(rv.take(rows.len() as int) =~= rv);
    let a = if headers.len() >= max_row {
        headers.len()
    } else {
        max_row
    };
    let cc = if a >= alignments.len() {
        a
    } else {
        alignments.len()
    };
    assert(cc == column_count(hv, rv, al.len()));
    if cc == 0 {
        return (headers, rows);
    }
    // padding

    let ph = pad_cells(headers, cc, alignments);
    proof {
        lemma_pad_len(hv, cc as nat, al);
    }
    let ghost prv = rv.map_values(|r: Seq<CellView>| pad(r, cc as nat, al));
    let mut pr: Vec<ParsedTableRow> = Vec::new();
    let mut rows_in = rows;
    let mut j: usize = 0;
    let n = rows_in.len();
    while j < n
        invariant
            n == rows_in.len(),
            j <= n,
            rows_view(rows_in@) == rv,
            pr@.len() == j,
            forall|k: int| 0 <= k < j ==> #[trigger] rows_view(pr@)[k] == prv[k],
            forall|k: int| 0 <= k < j ==> (#[trigger] pr@[k]).cells@.len() == cc,
            prv == rv.map_values(|r: Seq<CellView>| pad(r, cc as nat, al)),
            al == crate::main_content::assistant_messages::inline::strings_view(alignments@),
            cc >= max_row_len(rv),
        decreases n - j,
    {
        let row = &rows_in[j];
        let copy = copy_cells(&row.cells);
        let padded = pad_cells(copy, cc, alignments);
        proof {
            assert(rv[j as int] == cells_view(row.cells@));
            lemma_max_row_len(rv, j as int);
            lemma_pad_len(rv[j as int], cc as nat, al);
        }
        let ghost pr0 = pr@;
        pr.push(ParsedTableRow { cells: padded });
        proof {
            assert forall|k: int| 0 <= k < j + 1 implies #[trigger] rows_view(pr@)[k] == prv[k] by {
                if k < j {
                    assert(rows_view(pr@)[k] == rows_view(pr0)[k]);
                }
            }
            assert forall|k: int| 0 <= k < j + 1 implies (#[trigger] pr@[k]).cells@.len() == cc by {
                if k < j {
                    assert(pr@[k] == pr0[k]);
                }
            }
        }
        j += 1;
    }
    assert(rows_view(pr@) =~= prv);
    let ghost phv = cells_view(ph@);
    // widths
    let mut widths: Vec<i32> = Vec::new();
    let mut c: usize = 0;
    while c < cc
        invariant
            c <= cc,
            ph@.len() == cc,
            phv == cells_view(ph@),
            widths@.len() == c,
            forall|k: int| 0 <= k < c ==> #[trigger] widths@[k] == max_int(96, cw(phv, k)),
        decreases cc - c,
    {
        let w = width_for_cell(ph[c].text.as_str());
        proof {
            assert(phv[c as int] == ph@[c as int]@);
        }
        widths.push(if w > 96 {
            w
        } else {
            96
        });
        c += 1;
    }
    let mut r: usize = 0;
    while r < pr.len()
        invariant
            r <= pr.len(),
            widths@.len() == cc,
            rows_view(pr@) == prv,
            forall|k: int| 0 <= k < pr@.len() ==> (#[trigger] pr@[k]).cells@.len() == cc,
            forall|k: int|
                0 <= k < cc ==> #[trigger] widths@[k] == max_int(
                    max_int(96, cw(phv, k)),
                    rows_col_width(prv.take(r as int), k),
                ),
        decreases pr.len() - r,
    {
        let row = &pr[r];
        let ghost w0 = widths@;
        let mut c: usize = 0;
        while c < cc
            invariant
                c <= cc,
                row.cells@.len() == cc,
                widths@.len() == cc,
                prv[r as int] == cells_view(row.cells@),
                r < prv.len(),
                forall|k: int|
                    0 <= k < c ==> #[trigger] widths@[k] == max_int(w0[k] as int, cw(prv[r as int], k)),
                forall|k: int| c <= k < cc ==> #[trigger] widths@[k] == w0[k],
            decreases cc - c,
        {
            let w = width_for_cell(row.cells[c].text.as_str());
            proof {
                assert(cells_view(row.cells@)[c as int] == row.cells@[c as int]@);
            }
            if w > widths[c] {
                widths.set(c, w);
            }
            c += 1;
        }
        proof {
            assert(prv.take(r + 1).drop_last() =~= prv.take(r as int));
            assert(prv.take(r + 1).last() == prv[r as int]);
            assert forall|k: int| 0 <= k < cc implies #[trigger] widths@[k] == max_int(
                max_int(96, cw(phv, k)),
                rows_col_width(prv.take(r + 1), k),
            ) by {
                assert(rows_col_width(prv.take(r + 1), k) == max_int(
                    rows_col_width(prv.take(r as int), k),
                    cw(prv[r as int], k),
                ));
            }
        }
        r += 1;
    }
    assert(prv.take(pr.len() as int) =~= prv);
    // apply
    let new_headers = with_widths(&ph, &widths);
    let mut new_rows: Vec<ParsedTableRow> = Vec::new();
    let mut r2: usize = 0;
    while r2 < pr.len()
        invariant
            r2 <= pr.len(),
            widths@.len() == cc,
            rows_view(pr@) == prv,
            prv.len() == pr@.len(),
            forall|k: int| 0 <= k < pr@.len() ==> (#[trigger] pr@[k]).cells@.len() == cc,
            forall|k: int| 0 <= k < cc ==> #[trigger] widths@[k] == col_width(phv, prv, k),
            new_rows@.len() == r2,
            forall|k: int|
                0 <= k < r2 ==> #[trigger] rows_view(new_rows@)[k] == set_widths(prv[k], phv, prv),
        decreases pr.len() - r2,
    {
        let cells = with_widths(&pr[r2].cells, &widths);
        proof {
            assert(prv[r2 as int] == cells_view(pr@[r2 as int].cells@));
            assert(cells_view(cells@) =~= set_widths(prv[r2 as int], phv, prv));
        }
        let ghost n0 = new_rows@;
        new_rows.push(ParsedTableRow { cells });
        proof {
            assert forall|k: int| 0 <= k < r2 + 1 implies #[trigger] rows_view(new_rows@)[k]
                == set_widths(prv[k], phv, prv) by {
                if k < r2 {
                    assert(rows_view(new_rows@)[k] == rows_view(n0)[k]);
                }
            }
        }
        r2 += 1;
    }
    proof {
        assert(cells_view(new_headers@) =~= set_widths(phv, phv, prv));
        assert(rows_view(new_rows@) =~= prv.map_values(
            |r: Seq<CellView>| set_widths(r, phv, prv),
        ));
    }
    (new_headers, new_rows)
}

pub proof fn lemma_max_row_len(rows: Seq<Seq<CellView>>, j: int)
    requires
        0 <= j < rows.len(),
    ensures
        rows[j].len() <= max_row_len(rows),
    decreases rows.len(),
{
    if j < rows.len() - 1 {
        lemma_max_row_len(rows.drop_last(), j);
    }
}

pub fn copy_cell(c: &ParsedTableCell) -> (r: ParsedTableCell)
    ensures
        r@ == c@,
{
    ParsedTableCell {
        text: c.text.clone(),
        inline_markdown: c.inline_markdown.clone(),
        inline_spans: copy_spans(&c.inline_spans),
        alignment: c.alignment.clone(),
        width_px: c.width_px,
    }
}

pub fn copy_cells(v: &Vec<ParsedTableCell>) -> (r: Vec<ParsedTableCell>)
    ensures
        cells_view(r@) == cells_view(v@),
{
    let mut r: Vec<ParsedTableCell> = Vec::new();
    let mut i: usize = 0;
    while i < v.len()
        invariant
            i <= v.len(),
            r@.len() == i,
            forall|k: int| 0 <= k < i ==> #[trigger] r@[k]@ == v@[k]@,
        decreases v.len() - i,
    {
        r.push(copy_cell(&v[i]));
        i += 1;
    }
    assert(cells_view(r@) =~= cells_view(v@));
    r
}

// ---------------------------------------------------------------------------
// Table builder
// ---------------------------------------------------------------------------

/// A table being parsed.
pub struct TableBuilder {
    pub alignments: Vec<String>,
    pub headers: Vec<ParsedTableCell>,
    pub rows: Vec<ParsedTableRow>,
    pub current_row: Vec<ParsedTableCell>,
    pub current_cell: InlineAccumulator,
    pub in_header: bool,
    pub in_cell: bool,
}

/// The value of a [`TableBuilder`].
pub struct TableView {
    pub alignments: Seq<Seq<char>>,
    pub headers: Seq<CellView>,
    pub rows: Seq<Seq<CellView>>,
    pub current_row: Seq<CellView>,
    pub current_cell: AccView,
    pub in_header: bool,
    pub in_cell: bool,
}

impl View for TableBuilder {
    type V = TableView;

    open spec fn view(&self) -> TableView {
        TableView {
            alignments: crate::main_content::assistant_messages::inline::strings_view(
                self.alignments@,
            ),
            headers: cells_view(self.headers@),
            rows: rows_view(self.rows@),
            current_row: cells_view(self.current_row@),
            current_cell: self.current_cell@,
            in_header: self.in_header,
            in_cell: self.in_cell,
        }
    }
}

pub open spec fn tb_new(aligns: Seq<MdAlign>) -> TableView {
    TableView {
        alignments: aligns.map_values(|a: MdAlign| align_text(a)),
        headers: seq![],
        rows: seq![],
        current_row: seq![],
        current_cell: acc_empty(),
        in_header: false,
        in_cell: false,
    }
}

pub open spec fn tb_start_row(t: TableView) -> TableView {
    TableView { current_row: seq![], ..t }
}

pub open spec fn tb_start_cell(t: TableView) -> TableView {
    TableView { current_cell: acc_empty(), in_cell: true, ..t }
}

/// The cell a finished accumulator makes: trimmed text and markdown, and its
/// trimmed spans when they carry styling.
pub open spec fn finish_cell(a: AccView, alignment: Seq<char>) -> CellView {
    let spans = trim_trailing_spans(trim_leading_spans(a.spans));
    CellView {
        text: trim(a.plain),
        inline_markdown: trim(a.markdown),
        inline_spans: if spans_styled(spans) {
            spans
        } else {
            seq![]
        },
        alignment,
        width_px: 96,
    }
}

pub open spec fn tb_end_cell(t: TableView) -> TableView {
    if !t.in_cell {
        t
    } else {
        TableView {
            current_row: t.current_row.push(
                finish_cell(t.current_cell, align_at(t.alignments, t.current_row.len() as int)),
            ),
            current_cell: acc_empty(),
            in_cell: false,
            ..t
        }
    }
}

pub open spec fn tb_end_row(t: TableView) -> TableView {
    if t.current_row.len() == 0 {
        t
    } else if t.in_header {
        TableView { headers: t.current_row, current_row: seq![], ..t }
    } else {
        TableView { rows: t.rows.push(t.current_row), current_row: seq![], ..t }
    }
}

pub open spec fn tb_into_item(t: TableView) -> Option<ItemView> {
    let t1 = if t.in_cell {
        tb_end_cell(t)
    } else {
        t
    };
    let t2 = if t1.current_row.len() > 0 {
        tb_end_row(t1)
    } else {
        t1
    };
    let (h, r) = normalize(t2.headers, t2.rows, t2.alignments);
    if h.len() == 0 && r.len() == 0 {
        None
    } else {
        Some(ItemView { table_headers: h, table_rows: r, ..item_default("table"@, seq![], seq![], seq![]) })
    }
}

impl TableBuilder {
    pub fn new(alignments: &Vec<MdAlign>) -> (r: Self)
        ensures
            r@ == tb_new(alignments@),
    {
        let mut al: Vec<String> = Vec::new();
        let mut i: usize = 0;
        while i < alignments.len()
            invariant
                i <= alignments.len(),
                crate::main_content::assistant_messages::inline::strings_view(al@) =~= alignments@.take(
                    i as int,
                ).map_values(|a: MdAlign| align_text(a)),
            decreases alignments.len() - i,
        {
            let s = alignment_to_string(alignments[i]);
            let ghost a0 = al@;
            al.push(s);
            i += 1;
            proof {
                assert(alignments@.take(i as int).drop_last() =~= alignments@.take(i - 1));
                assert(crate::main_content::assistant_messages::inline::strings_view(al@) =~= crate::main_content::assistant_messages::inline::strings_view(a0).push(s@));
            }
        }
        assert(alignments@.take(alignments.len() as int) =~= alignments@);
        let r = TableBuilder {
            alignments: al,
            headers: Vec::new(),
            rows: Vec::new(),
            current_row: Vec::new(),
            current_cell: InlineAccumulator::new(),
            in_header: false,
            in_cell: false,
        };
        assert(r@.headers =~= seq![]);
        assert(r@.rows =~= seq![]);
        assert(r@.current_row =~= seq![]);
        r
    }

    pub fn start_row(&mut self)
        ensures
            final(self)@ == tb_start_row(old(self)@),
    {
        self.current_row = Vec::new();
        assert(self@.current_row =~= seq![]);
    }

    pub fn start_cell(&mut self)
        ensures
            final(self)@ == tb_start_cell(old(self)@),
    {
        self.current_cell = InlineAccumulator::new();
        self.in_cell = true;
    }

    pub fn end_cell(&mut self)
        ensures
            final(self)@ == tb_end_cell(old(self)@),
    {
        if !self.in_cell {
            return;
        }
        let column = self.current_row.len();
        let alignment = alignment_at(&self.alignments, column);
        let text = trimmed(self.current_cell.plain.as_str());
        let inline_markdown = trimmed(self.current_cell.markdown.as_str());
        let mut inline_spans = copy_spans(&self.current_cell.spans);
        trim_inline_spans(&mut inline_spans);
        if !should_render_inline_spans(&inline_spans) {
            inline_spans = Vec::new();
            assert(spans_view(inline_spans@) =~= seq![]);
        }
        let cell = ParsedTableCell { text, inline_markdown, inline_spans, alignment, width_px: 96 };
        proof {
            assert(cell@ == finish_cell(old(self)@.current_cell, align_at(old(self)@.alignments, column as int)));
            assert(cells_view(self.current_row@.push(cell)) =~= cells_view(self.current_row@).push(cell@));
        }
        self.current_row.push(cell);
        self.current_cell = InlineAccumulator::new();
        self.in_cell = false;
    }

    pub fn end_row(&mut self)
        ensures
            final(self)@ == tb_end_row(old(self)@),
    {
        if self.current_row.len() == 0 {
            return;
        }
        let mut row: Vec<ParsedTableCell> = Vec::new();
        std::mem::swap(&mut row, &mut self.current_row);
        assert(self@.current_row =~= seq![]);
        if self.in_header {
            self.headers = row;
        } else {
            proof {
                assert(rows_view(self.rows@.push(ParsedTableRow { cells: row })) =~= rows_view(self.rows@).push(cells_view(row@)));
            }
            self.rows.push(ParsedTableRow { cells: row });
        }
    }

    pub fn into_item(self) -> (r: Option<ParsedMarkdownItem>)
        ensures
            match r {
                Some(item) => tb_into_item(self@) == Some(item@),
                None => tb_into_item(self@) is None,
            },
    {
        let mut t = self;
        if t.in_cell {
            t.end_cell();
        }
        if t.current_row.len() > 0 {
            t.end_row();
        }
        let ghost t2 = t@;
        let alignments = t.alignments;
        let (headers, rows) = normalize_table_widths(t.headers, t.rows, &alignments);
        if headers.len() == 0 && rows.len() == 0 {
            return None;
        }
        let mut item = new_item("table", String::new(), String::new());
        proof {
            reveal_strlit("");
            assert(""@ =~= Seq::<char>::empty());
        }
        item.table_headers = headers;
        item.table_rows = rows;
        Some(item)
    }
}

} // verus!
