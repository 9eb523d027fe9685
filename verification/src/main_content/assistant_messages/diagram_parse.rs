//! Reading a Mermaid flowchart source into its direction, nodes and edges.

use super::blocks::{first_word, first_ws, lemma_first_ws};
use super::mermaid::{
    edge_statement, endpoint, ep_view, parse_mermaid_edge_statement, parse_mermaid_endpoint,
    MermaidEndpoint,
};
use crate::text::{
    chars_of, eq_chars, find, find_chars, find_from, is_whitespace, lemma_find_some, lines, lines_of, occurs_at,
    slice_chars, split_chars, split_on, str_eq, string_of, trim, trim_chars, trim_end_c,
    trim_end_c_chars, trim_start, trim_start_chars, upper_chars, upper_seq, vv,
};
use vstd::prelude::*;

verus! {

/// An edge as written: source id, target id, label.
#[derive(Debug, Clone)]
pub struct MermaidEdgeDraft {
    pub from: String,
    pub to: String,
    pub label: String,
}

pub open spec fn draft_view(e: MermaidEdgeDraft) -> (Seq<char>, Seq<char>, Seq<char>) {
    (e.from@, e.to@, e.label@)
}

pub open spec fn eps_view(v: Seq<MermaidEndpoint>) -> Seq<(Seq<char>, Seq<char>, Seq<char>)> {
    v.map_values(|e: MermaidEndpoint| ep_view(e))
}

pub open spec fn drafts_view(v: Seq<MermaidEdgeDraft>) -> Seq<(Seq<char>, Seq<char>, Seq<char>)> {
    v.map_values(|e: MermaidEdgeDraft| draft_view(e))
}

/// What has been read of a diagram: its direction, its nodes in the order
/// they first appear, and its edges.
pub struct MState {
    pub direction: Seq<char>,
    pub nodes: Seq<(Seq<char>, Seq<char>, Seq<char>)>,
    pub edges: Seq<(Seq<char>, Seq<char>, Seq<char>)>,
}

/// Index of the node with `id`.
pub open spec fn node_index(nodes: Seq<(Seq<char>, Seq<char>, Seq<char>)>, id: Seq<char>) -> Option<
    int,
>
    decreases nodes.len(),
{
    if nodes.len() == 0 {
        None
    } else if nodes.last().0 == id {
        Some(nodes.len() - 1)
    } else {
        node_index(nodes.drop_last(), id)
    }
}

pub proof fn lemma_node_index(nodes: Seq<(Seq<char>, Seq<char>, Seq<char>)>, id: Seq<char>)
    ensures
        match node_index(nodes, id) {
            Some(i) => 0 <= i < nodes.len() && nodes[i].0 == id,
            None => true,
        },
    decreases nodes.len(),
{
    if nodes.len() > 0 && nodes.last().0 != id {
        lemma_node_index(nodes.drop_last(), id);
    }
}

/// Adds a node reference: a new id is appended; a known id takes the label
/// when it had none of its own and the shape when it was a plain rectangle.
pub open spec fn register(
    nodes: Seq<(Seq<char>, Seq<char>, Seq<char>)>,
    n: (Seq<char>, Seq<char>, Seq<char>),
) -> Seq<(Seq<char>, Seq<char>, Seq<char>)> {
    if n.0.len() == 0 {
        nodes
    } else {
        match node_index(nodes, n.0) {
            None => nodes.push(n),
            Some(i) => {
                let e = nodes[i];
                let label = if e.1 == e.0 && n.1.len() > 0 {
                    n.1
                } else {
                    e.1
                };
                let shape = if e.2 == "rect"@ && n.2 != "rect"@ {
                    n.2
                } else {
                    e.2
                };
                nodes.update(i, (e.0, label, shape))
            },
        }
    }
}

/// One `;`-separated statement: an edge, or a lone node.
pub open spec fn statement_step(st: MState, piece: Seq<char>) -> MState {
    let p = trim(piece);
    if p.len() == 0 {
        st
    } else {
        match edge_statement(p) {
            Some((a, b, l)) => MState {
                nodes: register(register(st.nodes, a), b),
                edges: st.edges.push((a.0, b.0, l)),
                ..st
            },
            None => MState { nodes: register(st.nodes, endpoint(p)), ..st },
        }
    }
}

pub open spec fn statements_fold(st: MState, pieces: Seq<Seq<char>>) -> MState
    decreases pieces.len(),
{
    if pieces.len() == 0 {
        st
    } else {
        statement_step(statements_fold(st, pieces.drop_last()), pieces.last())
    }
}

/// A line without its `%%` comment.
pub open spec fn comment_cut(raw: Seq<char>) -> Seq<char> {
    match find(raw, "%%"@) {
        Some(i) => raw.take(i),
        None => raw,
    }
}

/// One source line: a `graph`/`flowchart` header sets the direction,
/// anything else is a list of statements.
pub open spec fn line_step(st: MState, raw: Seq<char>) -> MState {
    let line = trim(comment_cut(raw));
    if line.len() == 0 {
        st
    } else {
        let fw = first_word(line);
        if fw == "graph"@ || fw == "flowchart"@ {
            let t = trim_start(line);
            let second = first_word(t.skip(first_ws(t) as int));
            if second.len() > 0 {
                MState { direction: upper_seq(trim_end_c(second, ';')), ..st }
            } else {
                st
            }
        } else {
            statements_fold(st, split_on(line, ';'))
        }
    }
}

pub open spec fn lines_fold(st: MState, ls: Seq<Seq<char>>) -> MState
    decreases ls.len(),
{
    if ls.len() == 0 {
        st
    } else {
        line_step(lines_fold(st, ls.drop_last()), ls.last())
    }
}

/// The direction (top-down unless a header says otherwise), nodes and edges of `source`.
pub open spec fn parse_state(source: Seq<char>) -> MState {
    lines_fold(MState { direction: "TD"@, nodes: seq![], edges: seq![] }, lines(source))
}

pub fn register_mermaid_node(node: &MermaidEndpoint, nodes: &mut Vec<MermaidEndpoint>)
    ensures
        eps_view(final(nodes)@) == register(eps_view(old(nodes)@), ep_view(*node)),
{
    if node.id.as_str().is_empty() {
        return;
    }
    let mut i: usize = nodes.len();
    let ghost nv = eps_view(nodes@);
    assert(nv.take(nodes.len() as int) =~= nv);
    while i > 0
        invariant
            i <= nodes.len(),
            nv == eps_view(nodes@),
            node_index(nv, node.id@) == node_index(nv.take(i as int), node.id@),
        ensures
            i <= nodes.len(),
            nv == eps_view(nodes@),
            node_index(nv, node.id@) == node_index(nv.take(i as int), node.id@),
            i == 0 || nv[i - 1].0 == node.id@,
        decreases i,
    {
        proof {
            assert(nv.take(i as int).drop_last() =~= nv.take(i - 1));
            assert(nv.take(i as int).last() == nv[i - 1]);
        }
        if str_eq(nodes[i - 1].id.as_str(), node.id.as_str()) {
            break;
        }
        i -= 1;
    }
    if i == 0 {
        proof {
            assert(node_index(nv.take(0), node.id@) is None);
        }
        let c = node.clone_endpoint();
        proof {
            assert(eps_view(nodes@.push(c)) =~= nv.push(ep_view(*node)));
        }
        nodes.push(c);
        return;
    }
    let j = i - 1;
    proof {
        assert(nv.take(i as int).last() == nv[j as int]);
        assert(node_index(nv, node.id@) == Some(j as int));
    }
    let e = nodes[j].clone_endpoint();
    let label = if str_eq(e.label.as_str(), e.id.as_str()) && !node.label.as_str().is_empty() {
        node.label.clone()
    } else {
        e.label.clone()
    };
    let shape = if str_eq(e.shape.as_str(), "rect") && !str_eq(node.shape.as_str(), "rect") {
        node.shape.clone()
    } else {
        e.shape.clone()
    };
    let updated = MermaidEndpoint { id: e.id, label, shape };
    nodes.set(j, updated);
    assert(eps_view(nodes@) =~= register(nv, ep_view(*node)));
}

impl MermaidEndpoint {
    pub fn clone_endpoint(&self) -> (r: Self)
        ensures
            ep_view(r) == ep_view(*self),
    {
        MermaidEndpoint { id: self.id.clone(), label: self.label.clone(), shape: self.shape.clone() }
    }
}

/// The diagram being read, as executable values.
pub struct Reading {
    pub direction: Vec<char>,
    pub nodes: Vec<MermaidEndpoint>,
    pub edges: Vec<MermaidEdgeDraft>,
}

pub open spec fn reading_view(r: Reading) -> MState {
    MState { direction: r.direction@, nodes: eps_view(r.nodes@), edges: drafts_view(r.edges@) }
}

fn read_statement(r: &mut Reading, piece: &Vec<char>)
    ensures
        reading_view(*final(r)) == statement_step(reading_view(*old(r)), piece@),
{
    let p = trim_chars(piece);
    if p.len() == 0 {
        return;
    }
    match parse_mermaid_edge_statement(&p) {
        Some((a, b, l)) => {
            register_mermaid_node(&a, &mut r.nodes);
            register_mermaid_node(&b, &mut r.nodes);
            let d = MermaidEdgeDraft { from: a.id, to: b.id, label: string_of(l.as_slice()) };
            proof {
                assert(drafts_view(r.edges@.push(d)) =~= drafts_view(r.edges@).push(draft_view(d)));
            }
            r.edges.push(d);
        },
        None => {
            let n = parse_mermaid_endpoint(&p);
            register_mermaid_node(&n, &mut r.nodes);
        },
    }
}

fn read_line(r: &mut Reading, raw: &Vec<char>)
    ensures
        reading_view(*final(r)) == line_step(reading_view(*old(r)), raw@),
{
    let marker = chars_of("%%");
    let cut = match find_chars(raw, &marker) {
        Some(i) => {
            proof {
                lemma_find_some(raw@, marker@, i as int);
                assert(occurs_at(raw@, marker@, i as int));
            }
            let c = slice_chars(raw, 0, i);
            assert(c@ =~= raw@.take(i as int));
            c
        },
        None => slice_chars(raw, 0, raw.len()),
    };
    assert(cut@ =~= comment_cut(raw@));
    let line = trim_chars(&cut);
    if line.len() == 0 {
        return;
    }
    let t = trim_start_chars(&line);
    let mut k: usize = 0;
    while k < t.len() && !is_whitespace(t[k])
        invariant
            k <= t.len(),
            forall|j: int| 0 <= j < k ==> !crate::text::is_ws(#[trigger] t@[j]),
        decreases t.len() - k,
    {
        k += 1;
    }
    proof {
        lemma_first_ws(t@, k as int);
    }
    let fw = slice_chars(&t, 0, k);
    let g = chars_of("graph");
    let f = chars_of("flowchart");
    if eq_chars(&fw, &g) || eq_chars(&fw, &f) {
        let rest = slice_chars(&t, k, t.len());
        assert(rest@ =~= t@.skip(k as int));
        let second = super::blocks::primary_language_token(&rest);
        if second.len() > 0 {
            let d = trim_end_c_chars(&second, ';');
            r.direction = upper_chars(&d);
        }
        return;
    }
    let pieces = split_chars(&line, ';');
    let mut i: usize = 0;
    let ghost st0 = reading_view(*r);
    while i < pieces.len()
        invariant
            i <= pieces.len(),
            reading_view(*r) == statements_fold(st0, vv(pieces@).take(i as int)),
        decreases pieces.len() - i,
    {
        proof {
            assert(vv(pieces@).take(i + 1).drop_last() =~= vv(pieces@).take(i as int));
            assert(vv(pieces@).take(i + 1).last() == pieces@[i as int]@);
        }
        read_statement(r, &pieces[i]);
        i += 1;
    }
    assert(vv(pieces@).take(pieces.len() as int) =~= vv(pieces@));
}

/// Reads the whole source of a diagram.
pub fn read_diagram(source: &str) -> (r: Reading)
    ensures
        reading_view(r) == parse_state(source@),
{
    let mut r = Reading { direction: chars_of("TD"), nodes: Vec::new(), edges: Vec::new() };
    let v = chars_of(source);
    let ls = lines_of(&v);
    let ghost st0 = reading_view(r);
    assert(st0.nodes =~= seq![]);
    assert(st0.edges =~= seq![]);
    let mut i: usize = 0;
    while i < ls.len()
        invariant
            i <= ls.len(),
            st0 == (MState { direction: "TD"@, nodes: seq![], edges: seq![] }),
            reading_view(r) == lines_fold(st0, vv(ls@).take(i as int)),
        decreases ls.len() - i,
    {
        proof {
            assert(vv(ls@).take(i + 1).drop_last() =~= vv(ls@).take(i as int));
            assert(vv(ls@).take(i + 1).last() == ls@[i as int]@);
        }
        read_line(&mut r, &ls[i]);
        i += 1;
    }
    assert(vv(ls@).take(ls.len() as int) =~= vv(ls@));
    r
}

// ---------------------------------------------------------------------------
// Node ids
// ---------------------------------------------------------------------------

/// Every node has an id of its own, and no id is empty.
pub open spec fn ids_distinct(nodes: Seq<(Seq<char>, Seq<char>, Seq<char>)>) -> bool {
    &&& forall|i: int, j: int| 0 <= i < j < nodes.len() ==> #[trigger] nodes[i].0 != #[trigger] nodes[j].0
    &&& forall|i: int| 0 <= i < nodes.len() ==> (#[trigger] nodes[i]).0.len() > 0
}

proof fn lemma_node_index_none(nodes: Seq<(Seq<char>, Seq<char>, Seq<char>)>, id: Seq<char>)
    requires
        node_index(nodes, id) is None,
    ensures
        forall|k: int| 0 <= k < nodes.len() ==> (#[trigger] nodes[k]).0 != id,
    decreases nodes.len(),
{
    if nodes.len() > 0 {
        lemma_node_index_none(nodes.drop_last(), id);
        assert forall|k: int| 0 <= k < nodes.len() implies (#[trigger] nodes[k]).0 != id by {
            if k < nodes.len() - 1 {
                assert(nodes[k] == nodes.drop_last()[k]);
            }
        }
    }
}

proof fn lemma_register_distinct(
    nodes: Seq<(Seq<char>, Seq<char>, Seq<char>)>,
    n: (Seq<char>, Seq<char>, Seq<char>),
)
    requires
        ids_distinct(nodes),
    ensures
        ids_distinct(register(nodes, n)),
{
    if n.0.len() > 0 {
        lemma_node_index(nodes, n.0);
        match node_index(nodes, n.0) {
            None => {
                lemma_node_index_none(nodes, n.0);
                let r = nodes.push(n);
                assert forall|i: int, j: int| 0 <= i < j < r.len() implies #[trigger] r[i].0 != #[trigger] r[j].0 by {
                    if j == nodes.len() {
                        assert(r[i] == nodes[i]);
                    } else {
                        assert(r[i] == nodes[i]);
                        assert(r[j] == nodes[j]);
                    }
                }
            },
            Some(k) => {
                let r = register(nodes, n);
                assert forall|i: int, j: int| 0 <= i < j < r.len() implies #[trigger] r[i].0 != #[trigger] r[j].0 by {
                    assert(r[i].0 == nodes[i].0);
                    assert(r[j].0 == nodes[j].0);
                }
                assert forall|i: int| 0 <= i < r.len() implies (#[trigger] r[i]).0.len() > 0 by {
                    assert(r[i].0 == nodes[i].0);
                }
            },
        }
    }
}

proof fn lemma_statements_distinct(st: MState, pieces: Seq<Seq<char>>)
    requires
        ids_distinct(st.nodes),
    ensures
        ids_distinct(statements_fold(st, pieces).nodes),
    decreases pieces.len(),
{
    if pieces.len() > 0 {
        lemma_statements_distinct(st, pieces.drop_last());
        let s0 = statements_fold(st, pieces.drop_last());
        let p = trim(pieces.last());
        if p.len() > 0 {
            match edge_statement(p) {
                Some((a, b, l)) => {
                    lemma_register_distinct(s0.nodes, a);
                    lemma_register_distinct(register(s0.nodes, a), b);
                },
                None => {
                    lemma_register_distinct(s0.nodes, endpoint(p));
                },
            }
        }
    }
}

proof fn lemma_lines_distinct(st: MState, ls: Seq<Seq<char>>)
    requires
        ids_distinct(st.nodes),
    ensures
        ids_distinct(lines_fold(st, ls).nodes),
    decreases ls.len(),
{
    if ls.len() > 0 {
        lemma_lines_distinct(st, ls.drop_last());
        let s0 = lines_fold(st, ls.drop_last());
        let line = trim(comment_cut(ls.last()));
        if line.len() > 0 {
            lemma_statements_distinct(s0, split_on(line, ';'));
        }
    }
}

/// A flowchart's nodes have distinct, non-empty ids, however often a node
/// is mentioned.
pub proof fn lemma_diagram_ids_distinct(source: Seq<char>)
    ensures
        ids_distinct(parse_state(source).nodes),
{
    lemma_lines_distinct(MState { direction: "TD"@, nodes: seq![], edges: seq![] }, lines(source));
}

proof fn lemma_find_at(s: Seq<char>, p: Seq<char>, i: int, k: int)
    requires
        0 <= i <= k,
        occurs_at(s, p, k),
        forall|j: int| i <= j < k ==> !occurs_at(s, p, j),
    ensures
        find_from(s, p, i) == Some(k),
    decreases k - i,
{
    if i < k {
        lemma_find_at(s, p, i + 1, k);
    }
}

proof fn lemma_find_nowhere(s: Seq<char>, p: Seq<char>, i: int)
    requires
        0 <= i,
        forall|j: int| i <= j ==> !occurs_at(s, p, j),
    ensures
        find_from(s, p, i) is None,
    decreases s.len() + 1 - i,
{
    if i <= s.len() {
        lemma_find_nowhere(s, p, i + 1);
    }
}

/// A `%%` comment is ignored: a diagram line followed by a comment reads as
/// the line alone, and a line that is only a comment (`raw` empty) adds no
/// node, no edge and no direction.
pub proof fn lemma_comment_ignored(st: MState, raw: Seq<char>, comment: Seq<char>)
    requires
        !raw.contains('%'),
    ensures
        line_step(st, raw + "%%"@ + comment) == line_step(st, raw),
        raw.len() == 0 ==> line_step(st, "%%"@ + comment) == st,
{
    reveal_strlit("%%");
    let pct = "%%"@;
    let s = raw + pct + comment;
    assert(s.subrange(raw.len() as int, raw.len() + 2int) =~= pct);
    assert forall|j: int| 0 <= j < raw.len() implies !occurs_at(s, pct, j) by {
        if occurs_at(s, pct, j) {
            assert(s.subrange(j, j + 2)[0] == s[j]);
            assert(s[j] == raw[j]);
        }
    }
    lemma_find_at(s, pct, 0, raw.len() as int);
    assert(s.take(raw.len() as int) =~= raw);
    assert forall|j: int| 0 <= j implies !occurs_at(raw, pct, j) by {
        if occurs_at(raw, pct, j) {
            assert(raw.subrange(j, j + 2)[0] == raw[j]);
        }
    }
    lemma_find_nowhere(raw, pct, 0);
    if raw.len() == 0 {
        assert(raw + pct + comment =~= pct + comment);
        assert(comment_cut(raw) =~= Seq::<char>::empty());
        assert(trim(Seq::<char>::empty()) =~= Seq::<char>::empty()) by {
            reveal_with_fuel(crate::text::trim_start, 2);
            reveal_with_fuel(crate::text::trim_end, 2);
        }
    }
}

/// So a diagram's lines read the same with or without trailing comments.
pub proof fn lemma_comment_lines_ignored(st: MState, ls: Seq<Seq<char>>, raw: Seq<char>, comment: Seq<char>)
    requires
        !raw.contains('%'),
    ensures
        lines_fold(st, ls.push(raw + "%%"@ + comment)) == lines_fold(st, ls.push(raw)),
{
    assert(ls.push(raw + "%%"@ + comment).drop_last() =~= ls);
    assert(ls.push(raw).drop_last() =~= ls);
    lemma_comment_ignored(lines_fold(st, ls), raw, comment);
}

} // verus!
