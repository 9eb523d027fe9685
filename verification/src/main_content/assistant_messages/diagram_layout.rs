//! Placing flowchart nodes on a grid and drawing their edges.
//!
//! Layers run down the page (or across it for `LR`/`RL`), nodes of one layer
//! sit side by side in declaration order.  Coordinates are `i32` pixels and
//! follow two's-complement wrapping, as the arithmetic of a release build does.

use super::assoc::{count_lookup, counts_view, lookup};
use super::diagram_layers::{assign_mermaid_layers, ids_of, node_layers, Assoc, Drafts};
use super::diagram_parse::{
    drafts_view, eps_view, node_index, parse_state, read_diagram, MermaidEdgeDraft,
};
use super::items::{
    edges_view, nodes_view, DiagramView, EdgeView, NodeView, ParsedMermaidDiagram,
    ParsedMermaidEdge, ParsedMermaidNode,
};
use super::mermaid::MermaidEndpoint;
use crate::text::{
    chars_of, eq_chars, i64_text, int_text, owned, push_all, push_str_chars, str_eq, string_of,
};
use vstd::prelude::*;

verus! {

/// A value reduced to 32 bits.
pub open spec fn wrap(v: int) -> i32 {
    v as i32
}

/// `v / 2` rounded toward zero.
pub open spec fn half(v: i32) -> int {
    if v >= 0 {
        v / 2
    } else {
        -((-v) / 2)
    }
}

/// Width of a node box: eight pixels a character plus padding, kept within 96..=220.
pub open spec fn node_width(label: Seq<char>) -> i32 {
    let v = wrap(wrap((label.len() as i32) * 8) + 34);
    if v < 96 {
        96
    } else if v > 220 {
        220
    } else {
        v
    }
}

/// Largest layer number in the list, zero for none.
pub open spec fn max_layer(m: Assoc) -> nat
    decreases m.len(),
{
    if m.len() == 0 {
        0
    } else {
        let r = max_layer(m.drop_last());
        if m.last().1 > r {
            m.last().1
        } else {
            r
        }
    }
}

pub open spec fn layer_of(m: Assoc, id: Seq<char>) -> nat {
    match lookup(m, id) {
        Some(v) => v,
        None => 0,
    }
}

/// The layer a node is drawn in; reversed directions count from the last layer.
pub open spec fn drawn_layer(m: Assoc, id: Seq<char>, reverse: bool) -> nat {
    if reverse {
        if max_layer(m) >= layer_of(m, id) {
            (max_layer(m) - layer_of(m, id)) as nat
        } else {
            0
        }
    } else {
        layer_of(m, id)
    }
}

/// How many of the first `i` entries equal `v`.
pub open spec fn count_before(s: Seq<nat>, i: int, v: nat) -> nat
    decreases i,
{
    if i <= 0 {
        0
    } else if s[i - 1] == v {
        count_before(s, i - 1, v) + 1
    } else {
        count_before(s, i - 1, v)
    }
}

/// Grid step along a layer axis or a row axis.
pub open spec fn grid(k: nat, step: int) -> i32 {
    wrap(wrap((k as i32) * step) + 24)
}

pub type Node = (Seq<char>, Seq<char>, Seq<char>);

pub open spec fn horizontal_dir(direction: Seq<char>) -> bool {
    direction == "LR"@ || direction == "RL"@
}

pub open spec fn reverse_dir(direction: Seq<char>) -> bool {
    direction == "RL"@ || direction == "BT"@
}

/// The drawn layer of every node.
pub open spec fn node_lays(nodes: Seq<Node>, layers: Assoc, reverse: bool) -> Seq<nat> {
    nodes.map_values(|n: Node| drawn_layer(layers, n.0, reverse))
}

/// The placed node `i`.
pub open spec fn placed(
    nodes: Seq<Node>,
    layers: Assoc,
    horizontal: bool,
    reverse: bool,
    i: int,
) -> NodeView {
    let n = nodes[i];
    let lays = node_lays(nodes, layers, reverse);
    let lay = lays[i];
    let row = count_before(lays, i, lay);
    NodeView {
        id: n.0,
        label: if n.1.len() == 0 {
            n.0
        } else {
            n.1
        },
        x: if horizontal {
            grid(lay, 180)
        } else {
            grid(row, 180)
        },
        y: if horizontal {
            grid(row, 86)
        } else {
            grid(lay, 86)
        },
        width_px: node_width(n.1),
        shape: n.2,
    }
}

pub open spec fn placed_nodes(nodes: Seq<Node>, layers: Assoc, horizontal: bool, reverse: bool) -> Seq<
    NodeView,
> {
    Seq::new(nodes.len(), |i: int| placed(nodes, layers, horizontal, reverse, i))
}

/// `M x1 y1 L x2 y2`.
pub open spec fn line_path(sx: i32, sy: i32, ex: i32, ey: i32) -> Seq<char> {
    "M "@ + int_text(sx as int) + " "@ + int_text(sy as int) + " L "@ + int_text(ex as int) + " "@
        + int_text(ey as int)
}

/// A closed triangle `M x1 y1 L x2 y2 L x3 y3 Z`.
pub open spec fn arrow_path(x1: i32, y1: i32, x2: i32, y2: i32, x3: i32, y3: i32) -> Seq<char> {
    "M "@ + int_text(x1 as int) + " "@ + int_text(y1 as int) + " L "@ + int_text(x2 as int) + " "@
        + int_text(y2 as int) + " L "@ + int_text(x3 as int) + " "@ + int_text(y3 as int) + " Z"@
}

/// An edge from the box `a` to the box `b` (both 40 pixels high), labelled `label`.
pub open spec fn drawn_edge(a: NodeView, b: NodeView, label: Seq<char>, horizontal: bool) -> EdgeView {
    let sx = if horizontal {
        wrap(a.x + a.width_px)
    } else {
        wrap(a.x + a.width_px / 2)
    };
    let sy = if horizontal {
        wrap(a.y + 20)
    } else {
        wrap(a.y + 40)
    };
    let ex = if horizontal {
        b.x
    } else {
        wrap(b.x + b.width_px / 2)
    };
    let ey = if horizontal {
        wrap(b.y + 20)
    } else {
        b.y
    };
    EdgeView {
        path: line_path(sx, sy, ex, ey),
        arrow_path: if horizontal {
            arrow_path(ex, ey, wrap(ex - 7), wrap(ey - 4), wrap(ex - 7), wrap(ey + 4))
        } else {
            arrow_path(ex, ey, wrap(ex - 4), wrap(ey - 7), wrap(ex + 4), wrap(ey - 7))
        },
        label,
        label_x: wrap(half(wrap(sx + ex)) - 24),
        label_y: wrap(half(wrap(sy + ey)) - 11),
    }
}

/// The edges whose two ends are both placed nodes, in order.
pub open spec fn drawn_edges(
    nodes: Seq<Node>,
    placed: Seq<NodeView>,
    edges: Drafts,
    horizontal: bool,
) -> Seq<EdgeView>
    decreases edges.len(),
{
    if edges.len() == 0 {
        seq![]
    } else {
        let rest = drawn_edges(nodes, placed, edges.drop_last(), horizontal);
        let e = edges.last();
        match (node_index(nodes, e.0), node_index(nodes, e.1)) {
            (Some(i), Some(j)) => rest.push(drawn_edge(placed[i], placed[j], e.2, horizontal)),
            _ => rest,
        }
    }
}

/// The largest value, `dflt` for an empty sequence.
pub open spec fn max_or(s: Seq<i32>, dflt: i32) -> i32
    decreases s.len(),
{
    if s.len() == 0 {
        dflt
    } else if s.len() == 1 {
        s[0]
    } else {
        let m = max_or(s.drop_last(), dflt);
        if s.last() > m {
            s.last()
        } else {
            m
        }
    }
}

pub open spec fn right_edges(p: Seq<NodeView>) -> Seq<i32> {
    p.map_values(|n: NodeView| wrap(wrap(n.x + n.width_px) + 24))
}

pub open spec fn bottom_edges(p: Seq<NodeView>) -> Seq<i32> {
    p.map_values(|n: NodeView| wrap(wrap(n.y + 40) + 24))
}

/// The laid-out diagram of `nodes` and `edges` in `direction`.
pub open spec fn layout(direction: Seq<char>, nodes: Seq<Node>, edges: Drafts) -> DiagramView {
    let h = horizontal_dir(direction);
    let r = reverse_dir(direction);
    let layers = node_layers(nodes.map_values(|n: Node| n.0), edges);
    let p = placed_nodes(nodes, layers, h, r);
    DiagramView {
        nodes: p,
        edges: drawn_edges(nodes, p, edges, h),
        width_px: max_or(right_edges(p), 240),
        height_px: max_or(bottom_edges(p), 120),
    }
}

/// The diagram a Mermaid flowchart source describes; empty when it names no node.
pub open spec fn mermaid_diagram(source: Seq<char>) -> DiagramView {
    let st = parse_state(source);
    if st.nodes.len() == 0 {
        DiagramView { nodes: seq![], edges: seq![], width_px: 0, height_px: 0 }
    } else {
        layout(st.direction, st.nodes, st.edges)
    }
}

fn width_for_mermaid_node(label: &str) -> (r: i32)
    ensures
        r == node_width(label@),
        96 <= r <= 220,
{
    let n = chars_of(label).len();
    let a: i32 = (((n as i32) as i64) * 8) as i32;
    let b: i32 = ((a as i64) + 34) as i32;
    if b < 96 {
        96
    } else if b > 220 {
        220
    } else {
        b
    }
}

fn grid_exec(k: usize, step: i64) -> (r: i32)
    requires
        step == 180 || step == 86,
    ensures
        r == grid(k as nat, step as int),
{
    let a: i32 = (((k as i32) as i64) * step) as i32;
    ((a as i64) + 24) as i32
}

fn push_int(v: &mut Vec<char>, n: i32)
    ensures
        final(v)@ == old(v)@ + int_text(n as int),
{
    let t = i64_text(n as i64);
    push_all(v, &t);
}

fn render_mermaid_edge(a: &ParsedMermaidNode, b: &ParsedMermaidNode, label: String, horizontal: bool) -> (r:
    ParsedMermaidEdge)
    requires
        a.width_px >= 0,
        b.width_px >= 0,
    ensures
        r@ == drawn_edge(a@, b@, label@, horizontal),
{
    let sx: i32 = if horizontal {
        ((a.x as i64) + (a.width_px as i64)) as i32
    } else {
        ((a.x as i64) + ((a.width_px / 2) as i64)) as i32
    };
    let sy: i32 = if horizontal {
        ((a.y as i64) + 20) as i32
    } else {
        ((a.y as i64) + 40) as i32
    };
    let ex: i32 = if horizontal {
        b.x
    } else {
        ((b.x as i64) + ((b.width_px / 2) as i64)) as i32
    };
    let ey: i32 = if horizontal {
        ((b.y as i64) + 20) as i32
    } else {
        b.y
    };
    let mut path: Vec<char> = Vec::new();
    push_str_chars(&mut path, "M ");
    push_int(&mut path, sx);
    push_str_chars(&mut path, " ");
    push_int(&mut path, sy);
    push_str_chars(&mut path, " L ");
    push_int(&mut path, ex);
    push_str_chars(&mut path, " ");
    push_int(&mut path, ey);
    assert(path@ =~= line_path(sx, sy, ex, ey));
    let (x2, y2, x3, y3): (i32, i32, i32, i32) = if horizontal {
        (
            ((ex as i64) - 7) as i32,
            ((ey as i64) - 4) as i32,
            ((ex as i64) - 7) as i32,
            ((ey as i64) + 4) as i32,
        )
    } else {
        (
            ((ex as i64) - 4) as i32,
            ((ey as i64) - 7) as i32,
            ((ex as i64) + 4) as i32,
            ((ey as i64) - 7) as i32,
        )
    };
    let mut arrow: Vec<char> = Vec::new();
    push_str_chars(&mut arrow, "M ");
    push_int(&mut arrow, ex);
    push_str_chars(&mut arrow, " ");
    push_int(&mut arrow, ey);
    push_str_chars(&mut arrow, " L ");
    push_int(&mut arrow, x2);
    push_str_chars(&mut arrow, " ");
    push_int(&mut arrow, y2);
    push_str_chars(&mut arrow, " L ");
    push_int(&mut arrow, x3);
    push_str_chars(&mut arrow, " ");
    push_int(&mut arrow, y3);
    push_str_chars(&mut arrow, " Z");
    assert(arrow@ =~= arrow_path(ex, ey, x2, y2, x3, y3));
    let mid_x: i32 = ((sx as i64) + (ex as i64)) as i32;
    let mid_y: i32 = ((sy as i64) + (ey as i64)) as i32;
    let label_x: i32 = (((mid_x / 2) as i64) - 24) as i32;
    let label_y: i32 = (((mid_y / 2) as i64) - 11) as i32;
    ParsedMermaidEdge {
        path: string_of(path.as_slice()),
        arrow_path: string_of(arrow.as_slice()),
        label,
        label_x,
        label_y,
    }
}

/// Index of the last node named `id`.
fn find_node(nodes: &Vec<MermaidEndpoint>, id: &str) -> (r: Option<usize>)
    ensures
        match r {
            Some(i) => node_index(eps_view(nodes@), id@) == Some(i as int) && i < nodes.len(),
            None => node_index(eps_view(nodes@), id@) is None,
        },
{
    let ghost nv = eps_view(nodes@);
    let mut i: usize = nodes.len();
    assert(nv.take(nodes.len() as int) =~= nv);
    while i > 0
        invariant
            i <= nodes.len(),
            nv == eps_view(nodes@),
            node_index(nv, id@) == node_index(nv.take(i as int), id@),
        decreases i,
    {
        proof {
            assert(nv.take(i as int).drop_last() =~= nv.take(i - 1));
            assert(nv.take(i as int).last() == nv[i - 1]);
        }
        if str_eq(nodes[i - 1].id.as_str(), id) {
            return Some(i - 1);
        }
        i -= 1;
    }
    None
}

fn count_equal_before(lays: &Vec<usize>, i: usize, v: usize) -> (r: usize)
    requires
        i <= lays.len(),
    ensures
        r == count_before(lays@.map_values(|x: usize| x as nat), i as int, v as nat),
        r <= i,
{
    let ghost s = lays@.map_values(|x: usize| x as nat);
    let mut c: usize = 0;
    let mut j: usize = 0;
    while j < i
        invariant
            j <= i <= lays.len(),
            s == lays@.map_values(|x: usize| x as nat),
            c == count_before(s, j as int, v as nat),
            c <= j,
        decreases i - j,
    {
        if lays[j] == v {
            c += 1;
        }
        j += 1;
    }
    c
}

fn layout_mermaid(
    direction: &Vec<char>,
    nodes: &Vec<MermaidEndpoint>,
    edges: &Vec<MermaidEdgeDraft>,
) -> (r: ParsedMermaidDiagram)
    ensures
        r@ == layout(direction@, eps_view(nodes@), drafts_view(edges@)),
{
    let ghost nv = eps_view(nodes@);
    let ghost dr = drafts_view(edges@);
    let lr = chars_of("LR");
    let rl = chars_of("RL");
    let bt = chars_of("BT");
    let horizontal = eq_chars(direction, &lr) || eq_chars(direction, &rl);
    let reverse = eq_chars(direction, &rl) || eq_chars(direction, &bt);
    let layers = assign_mermaid_layers(nodes, edges);
    let ghost lv = counts_view(layers@);
    assert(ids_of(nodes@) =~= nv.map_values(|n: Node| n.0));
    assert(lv == node_layers(nv.map_values(|n: Node| n.0), dr));
    // the largest layer
    let mut maxl: usize = 0;
    let mut k: usize = 0;
    while k < layers.len()
        invariant
            k <= layers.len(),
            lv == counts_view(layers@),
            maxl == max_layer(lv.take(k as int)),
        decreases layers.len() - k,
    {
        proof {
            assert(lv.take(k + 1).drop_last() =~= lv.take(k as int));
            assert(lv.take(k + 1).last() == lv[k as int]);
        }
        if layers[k].1 > maxl {
            maxl = layers[k].1;
        }
        k += 1;
    }
    assert(lv.take(layers.len() as int) =~= lv);
    // the drawn layer of every node
    let mut lays: Vec<usize> = Vec::new();
    let mut i: usize = 0;
    while i < nodes.len()
        invariant
            i <= nodes.len(),
            nv == eps_view(nodes@),
            lv == counts_view(layers@),
            maxl == max_layer(lv),
            lays@.len() == i,
            forall|j: int|
                0 <= j < i ==> #[trigger] lays@[j] as nat == drawn_layer(lv, nv[j].0, reverse),
        decreases nodes.len() - i,
    {
        let l = match count_lookup(&layers, nodes[i].id.as_str()) {
            Some(v) => v,
            None => 0,
        };
        let d = if reverse {
            if maxl >= l {
                maxl - l
            } else {
                0
            }
        } else {
            l
        };
        lays.push(d);
        i += 1;
    }
    let ghost ls = lays@.map_values(|x: usize| x as nat);
    assert(ls =~= node_lays(nv, lv, reverse));
    let ghost pn = placed_nodes(nv, lv, horizontal, reverse);
    // placed nodes
    let mut out_nodes: Vec<ParsedMermaidNode> = Vec::new();
    let mut i: usize = 0;
    while i < nodes.len()
        invariant
            i <= nodes.len(),
            nv == eps_view(nodes@),
            lays@.len() == nodes.len(),
            ls == lays@.map_values(|x: usize| x as nat),
            ls == node_lays(nv, lv, reverse),
            pn == placed_nodes(nv, lv, horizontal, reverse),
            nodes_view(out_nodes@) == pn.take(i as int),
            forall|j: int| 0 <= j < i ==> #[trigger] out_nodes@[j].width_px >= 96,
        decreases nodes.len() - i,
    {
        let lay = lays[i];
        let row = count_equal_before(&lays, i, lay);
        let n = &nodes[i];
        let label = if n.label.as_str().is_empty() {
            owned(n.id.as_str())
        } else {
            owned(n.label.as_str())
        };
        let (x, y): (i32, i32) = if horizontal {
            (grid_exec(lay, 180), grid_exec(row, 86))
        } else {
            (grid_exec(row, 180), grid_exec(lay, 86))
        };
        let w = width_for_mermaid_node(n.label.as_str());
        let node = ParsedMermaidNode {
            id: owned(n.id.as_str()),
            label,
            x,
            y,
            width_px: w,
            shape: owned(n.shape.as_str()),
        };
        let ghost o0 = out_nodes@;
        out_nodes.push(node);
        proof {
            assert(ls[i as int] == lay as nat);
            assert(node@ == placed(nv, lv, horizontal, reverse, i as int));
            assert(pn[i as int] == placed(nv, lv, horizontal, reverse, i as int));
            assert(nodes_view(out_nodes@) =~= nodes_view(o0).push(node@));
            assert(pn.take(i + 1) =~= pn.take(i as int).push(pn[i as int]));
            assert(nodes_view(out_nodes@) =~= pn.take(i + 1));
            assert forall|j: int| 0 <= j < i + 1 implies #[trigger] out_nodes@[j].width_px
                >= 96 by {
                if j < i {
                    assert(out_nodes@[j] == o0[j]);
                }
            }
        }
        i += 1;
    }
    assert(pn.take(nodes.len() as int) =~= pn);
    // edges
    let mut out_edges: Vec<ParsedMermaidEdge> = Vec::new();
    let mut e: usize = 0;
    while e < edges.len()
        invariant
            e <= edges.len(),
            nv == eps_view(nodes@),
            dr == drafts_view(edges@),
            nodes_view(out_nodes@) == pn,
            out_nodes@.len() == nodes.len(),
            forall|j: int| 0 <= j < out_nodes@.len() ==> #[trigger] out_nodes@[j].width_px >= 96,
            edges_view(out_edges@) == drawn_edges(nv, pn, dr.take(e as int), horizontal),
        decreases edges.len() - e,
    {
        proof {
            assert(dr.take(e + 1).drop_last() =~= dr.take(e as int));
            assert(dr.take(e + 1).last() == dr[e as int]);
        }
        let a = find_node(nodes, edges[e].from.as_str());
        let b = find_node(nodes, edges[e].to.as_str());
        match (a, b) {
            (Some(ia), Some(ib)) => {
                let edge = render_mermaid_edge(
                    &out_nodes[ia],
                    &out_nodes[ib],
                    owned(edges[e].label.as_str()),
                    horizontal,
                );
                proof {
                    assert(nodes_view(out_nodes@)[ia as int] == out_nodes@[ia as int]@);
                    assert(nodes_view(out_nodes@)[ib as int] == out_nodes@[ib as int]@);
                }
                let ghost e0 = out_edges@;
                out_edges.push(edge);
                assert(edges_view(out_edges@) =~= edges_view(e0).push(edge@));
            },
            _ => {},
        }
        e += 1;
    }
    assert(dr.take(edges.len() as int) =~= dr);
    // extent
    let ghost re = right_edges(pn);
    let ghost be = bottom_edges(pn);
    let mut width: i32 = 240;
    let mut height: i32 = 120;
    let mut k: usize = 0;
    while k < out_nodes.len()
        invariant
            k <= out_nodes.len(),
            nodes_view(out_nodes@) == pn,
            re == right_edges(pn),
            be == bottom_edges(pn),
            width == max_or(re.take(k as int), 240),
            height == max_or(be.take(k as int), 120),
        decreases out_nodes.len() - k,
    {
        proof {
            assert(re.take(k + 1).drop_last() =~= re.take(k as int));
            assert(be.take(k + 1).drop_last() =~= be.take(k as int));
            assert(pn[k as int] == out_nodes@[k as int]@);
        }
        let n = &out_nodes[k];
        let rx: i32 = (((((n.x as i64) + (n.width_px as i64)) as i32) as i64) + 24) as i32;
        let by: i32 = (((((n.y as i64) + 40) as i32) as i64) + 24) as i32;
        if k == 0 || rx > width {
            width = rx;
        }
        if k == 0 || by > height {
            height = by;
        }
        k += 1;
    }
    assert(re.take(out_nodes.len() as int) =~= re);
    assert(be.take(out_nodes.len() as int) =~= be);
    ParsedMermaidDiagram { nodes: out_nodes, edges: out_edges, width_px: width, height_px: height }
}

/// Parses a Mermaid flowchart and lays it out.
pub fn parse_mermaid_diagram(source: &str) -> (r: ParsedMermaidDiagram)
    ensures
        r@ == mermaid_diagram(source@),
{
    let reading = read_diagram(source);
    if reading.nodes.len() == 0 {
        let r = ParsedMermaidDiagram { nodes: Vec::new(), edges: Vec::new(), width_px: 0, height_px: 0 };
        assert(r@.nodes =~= seq![]);
        assert(r@.edges =~= seq![]);
        return r;
    }
    layout_mermaid(&reading.direction, &reading.nodes, &reading.edges)
}

} // verus!
