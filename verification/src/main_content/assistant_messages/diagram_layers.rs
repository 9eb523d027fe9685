//! Layer assignment for flowchart nodes.
//!
//! Nodes without incoming edges start in layer 0 and every edge pushes its
//! target at least one layer below its source; nodes are released in
//! topological order once all their incoming edges have been seen.  When no
//! node is free of incoming edges, every node is started in declaration
//! order.  The walk is bounded by the number of nodes and edges.

use super::assoc::{
    count_lookup, count_or_insert, count_set, counts_view, lookup, or_insert, set_val,
};
use super::diagram_parse::{MermaidEdgeDraft, drafts_view};
use super::mermaid::MermaidEndpoint;
use crate::text::{owned, str_eq};
use vstd::prelude::*;

verus! {

pub type Assoc = Seq<(Seq<char>, nat)>;

pub type Drafts = Seq<(Seq<char>, Seq<char>, Seq<char>)>;

/// The bookkeeping of the layer walk.
pub struct LayerState {
    pub layers: Assoc,
    pub incoming: Assoc,
    pub queue: Seq<Seq<char>>,
}

/// Incoming edge counts: every node starts at zero, every edge adds one to its target.
pub open spec fn incoming_fold(order: Seq<Seq<char>>, edges: Drafts) -> Assoc
    decreases edges.len(),
{
    if edges.len() == 0 {
        zero_entries(order)
    } else {
        let m = incoming_fold(order, edges.drop_last());
        let t = edges.last().1;
        let m2 = or_insert(m, t, 0nat);
        let c = match lookup(m2, t) {
            Some(c) => c,
            None => 0,
        };
        set_val(m2, t, c + 1)
    }
}

/// Every id with a zero count.
pub open spec fn zero_entries(ids: Seq<Seq<char>>) -> Assoc {
    ids.map_values(|id: Seq<char>| (id, 0nat))
}

/// The keys whose count is zero, in list order.
pub open spec fn zeros(m: Assoc) -> Seq<Seq<char>>
    decreases m.len(),
{
    if m.len() == 0 {
        seq![]
    } else if m.last().1 == 0 {
        zeros(m.drop_last()).push(m.last().0)
    } else {
        zeros(m.drop_last())
    }
}

/// The nodes the walk starts from.
pub open spec fn start_queue(order: Seq<Seq<char>>, incoming: Assoc) -> Seq<Seq<char>> {
    if zeros(incoming).len() == 0 {
        order
    } else {
        zeros(incoming)
    }
}

/// One edge into `t` from a node in layer `cur`.
pub open spec fn relax_one(st: LayerState, cur: nat, t: Seq<char>) -> LayerState {
    let next = cur + 1;
    let layers = match lookup(st.layers, t) {
        None => st.layers.push((t, next)),
        Some(v) => if v < next {
            set_val(st.layers, t, next)
        } else {
            st.layers
        },
    };
    match lookup(st.incoming, t) {
        None => LayerState { layers, ..st },
        Some(c) => {
            let c2: nat = if c > 0 {
                (c - 1) as nat
            } else {
                0
            };
            LayerState {
                layers,
                incoming: set_val(st.incoming, t, c2),
                queue: if c2 == 0 {
                    st.queue.push(t)
                } else {
                    st.queue
                },
            }
        },
    }
}

/// All edges leaving `id`, in edge order.
pub open spec fn relax_edges(st: LayerState, cur: nat, id: Seq<char>, edges: Drafts) -> LayerState
    decreases edges.len(),
{
    if edges.len() == 0 {
        st
    } else {
        let s = relax_edges(st, cur, id, edges.drop_last());
        if edges.last().0 == id {
            relax_one(s, cur, edges.last().1)
        } else {
            s
        }
    }
}

/// Takes the first queued node and relaxes its outgoing edges.
pub open spec fn pop_step(st: LayerState, edges: Drafts) -> LayerState {
    let id = st.queue[0];
    let layers = or_insert(st.layers, id, 0nat);
    let cur = match lookup(layers, id) {
        Some(c) => c,
        None => 0,
    };
    relax_edges(LayerState { layers, incoming: st.incoming, queue: st.queue.drop_first() }, cur, id, edges)
}

/// At most `fuel` steps of the walk, stopping when the queue is empty.
pub open spec fn run(st: LayerState, edges: Drafts, fuel: nat) -> LayerState
    decreases fuel,
{
    if fuel == 0 || st.queue.len() == 0 {
        st
    } else {
        run(pop_step(st, edges), edges, (fuel - 1) as nat)
    }
}

/// Every node gets a layer, zero when the walk gave it none.
pub open spec fn fill(layers: Assoc, order: Seq<Seq<char>>) -> Assoc
    decreases order.len(),
{
    if order.len() == 0 {
        layers
    } else {
        or_insert(fill(layers, order.drop_last()), order.last(), 0nat)
    }
}

/// The walk's step budget: one per node and one per edge.
pub open spec fn walk_budget(order: Seq<Seq<char>>, edges: Drafts) -> nat {
    if order.len() + edges.len() > usize::MAX {
        usize::MAX as nat
    } else {
        order.len() + edges.len()
    }
}

/// The layer of every node (and of every other edge endpoint the walk reached).
pub open spec fn node_layers(order: Seq<Seq<char>>, edges: Drafts) -> Assoc {
    let inc = incoming_fold(order, edges);
    let st0 = LayerState { layers: seq![], incoming: inc, queue: start_queue(order, inc) };
    fill(run(st0, edges, walk_budget(order, edges)).layers, order)
}

pub open spec fn ids_of(nodes: Seq<MermaidEndpoint>) -> Seq<Seq<char>> {
    nodes.map_values(|n: MermaidEndpoint| n.id@)
}

pub open spec fn queue_view(q: Seq<String>, h: int) -> Seq<Seq<char>> {
    q.skip(h).map_values(|s: String| s@)
}

pub open spec fn bounded(m: Seq<(String, usize)>, b: nat) -> bool {
    forall|k: int| 0 <= k < m.len() ==> #[trigger] m[k].1 <= b
}

proof fn lemma_bounded_set(
    m0: Seq<(String, usize)>,
    m1: Seq<(String, usize)>,
    key: Seq<char>,
    v: nat,
    b: nat,
)
    requires
        counts_view(m1) == set_val(counts_view(m0), key, v),
        bounded(m0, b),
        v <= b,
    ensures
        bounded(m1, b),
{
    super::assoc::lemma_index_of(counts_view(m0), key);
    assert(counts_view(m1).len() == m1.len());
    assert(counts_view(m0).len() == m0.len());
    assert forall|k: int| 0 <= k < m1.len() implies #[trigger] m1[k].1 <= b by {
        assert(counts_view(m1)[k].1 == m1[k].1);
        assert(counts_view(m0)[k].1 == m0[k].1);
    }
}

proof fn lemma_bounded_or_insert(
    m0: Seq<(String, usize)>,
    m1: Seq<(String, usize)>,
    key: Seq<char>,
    v: nat,
    b: nat,
)
    requires
        counts_view(m1) == or_insert(counts_view(m0), key, v),
        bounded(m0, b),
        v <= b,
    ensures
        bounded(m1, b),
{
    assert(counts_view(m1).len() == m1.len());
    assert(counts_view(m0).len() == m0.len());
    assert forall|k: int| 0 <= k < m1.len() implies #[trigger] m1[k].1 <= b by {
        assert(counts_view(m1)[k].1 == m1[k].1);
        if k < m0.len() {
            assert(counts_view(m0)[k].1 == m0[k].1);
        }
    }
}

proof fn lemma_queue_push(q: Seq<String>, h: int, s: String)
    requires
        0 <= h <= q.len(),
    ensures
        queue_view(q.push(s), h) == queue_view(q, h).push(s@),
{
    assert(q.push(s).skip(h) =~= q.skip(h).push(s));
    assert(queue_view(q.push(s), h) =~= queue_view(q, h).push(s@));
}

fn relax_target(
    layers: &mut Vec<(String, usize)>,
    inc: &mut Vec<(String, usize)>,
    queue: &mut Vec<String>,
    qh: usize,
    cur: usize,
    t: &String,
    Ghost(b): Ghost<nat>,
)
    requires
        cur < b,
        b <= usize::MAX,
        bounded(old(layers)@, b),
        qh <= old(queue).len(),
    ensures
        bounded(final(layers)@, b),
        qh <= final(queue).len(),
        final(queue)@.take(qh as int) == old(queue)@.take(qh as int),
        ({
            let s0 = LayerState {
                layers: counts_view(old(layers)@),
                incoming: counts_view(old(inc)@),
                queue: queue_view(old(queue)@, qh as int),
            };
            let s1 = relax_one(s0, cur as nat, t@);
            &&& counts_view(final(layers)@) == s1.layers
            &&& counts_view(final(inc)@) == s1.incoming
            &&& queue_view(final(queue)@, qh as int) == s1.queue
        }),
{
    let next = cur + 1;
    match count_lookup(layers, t.as_str()) {
        None => {
            layers.push((owned(t.as_str()), next));
            assert(counts_view(layers@) =~= counts_view(old(layers)@).push((t@, next as nat)));
            proof {
                assert forall|k: int| 0 <= k < layers@.len() implies #[trigger] layers@[k].1
                    <= b by {
                    if k < old(layers)@.len() {
                        assert(layers@[k] == old(layers)@[k]);
                    }
                }
            }
        },
        Some(v) => {
            if v < next {
                count_set(layers, t.as_str(), next);
                proof {
                    lemma_bounded_set(old(layers)@, layers@, t@, next as nat, b);
                }
            }
        },
    }
    match count_lookup(inc, t.as_str()) {
        None => {},
        Some(c) => {
            let c2: usize = if c > 0 {
                c - 1
            } else {
                0
            };
            count_set(inc, t.as_str(), c2);
            if c2 == 0 {
                let ghost q0 = queue@;
                let o = owned(t.as_str());
                queue.push(o);
                proof {
                    lemma_queue_push(q0, qh as int, o);
                }
                assert(queue@.take(qh as int) =~= q0.take(qh as int));
            }
        },
    }
}

fn relax_all(
    layers: &mut Vec<(String, usize)>,
    inc: &mut Vec<(String, usize)>,
    queue: &mut Vec<String>,
    qh: usize,
    cur: usize,
    id: &String,
    edges: &Vec<MermaidEdgeDraft>,
    Ghost(b): Ghost<nat>,
)
    requires
        cur < b,
        b <= usize::MAX,
        bounded(old(layers)@, b),
        qh <= old(queue).len(),
    ensures
        bounded(final(layers)@, b),
        qh <= final(queue).len(),
        ({
            let s0 = LayerState {
                layers: counts_view(old(layers)@),
                incoming: counts_view(old(inc)@),
                queue: queue_view(old(queue)@, qh as int),
            };
            let s1 = relax_edges(s0, cur as nat, id@, drafts_view(edges@));
            &&& counts_view(final(layers)@) == s1.layers
            &&& counts_view(final(inc)@) == s1.incoming
            &&& queue_view(final(queue)@, qh as int) == s1.queue
        }),
{
    let ghost s0 = LayerState {
        layers: counts_view(layers@),
        incoming: counts_view(inc@),
        queue: queue_view(queue@, qh as int),
    };
    let mut j: usize = 0;
    while j < edges.len()
        invariant
            j <= edges.len(),
            cur < b,
            b <= usize::MAX,
            bounded(layers@, b),
            qh <= queue.len(),
            ({
                let s1 = relax_edges(s0, cur as nat, id@, drafts_view(edges@).take(j as int));
                &&& counts_view(layers@) == s1.layers
                &&& counts_view(inc@) == s1.incoming
                &&& queue_view(queue@, qh as int) == s1.queue
            }),
        decreases edges.len() - j,
    {
        proof {
            assert(drafts_view(edges@).take(j + 1).drop_last() =~= drafts_view(edges@).take(
                j as int,
            ));
            assert(drafts_view(edges@).take(j + 1).last() == drafts_view(edges@)[j as int]);
        }
        if str_eq(edges[j].from.as_str(), id.as_str()) {
            relax_target(layers, inc, queue, qh, cur, &edges[j].to, Ghost(b));
        }
        j += 1;
    }
    assert(drafts_view(edges@).take(edges.len() as int) =~= drafts_view(edges@));
}

/// The layer of every node of the diagram, as an association list.
pub fn assign_mermaid_layers(nodes: &Vec<MermaidEndpoint>, edges: &Vec<MermaidEdgeDraft>) -> (r: Vec<
    (String, usize),
>)
    ensures
        counts_view(r@) == node_layers(ids_of(nodes@), drafts_view(edges@)),
{
    let ghost order = ids_of(nodes@);
    let ghost dr = drafts_view(edges@);
    // incoming counts
    let mut inc: Vec<(String, usize)> = Vec::new();
    let mut i: usize = 0;
    while i < nodes.len()
        invariant
            i <= nodes.len(),
            order == ids_of(nodes@),
            counts_view(inc@) == zero_entries(order.take(i as int)),
            bounded(inc@, 0),
        decreases nodes.len() - i,
    {
        let ghost inc0 = inc@;
        let o = owned(nodes[i].id.as_str());
        inc.push((o, 0));
        proof {
            assert(order[i as int] == nodes@[i as int].id@);
            assert(counts_view(inc@) =~= counts_view(inc0).push((o@, 0nat)));
            assert(zero_entries(order.take(i + 1)) =~= zero_entries(order.take(i as int)).push(
                (order[i as int], 0nat),
            ));
            assert forall|k: int| 0 <= k < inc@.len() implies #[trigger] inc@[k].1 <= 0 by {
                if k < inc0.len() {
                    assert(inc@[k] == inc0[k]);
                }
            }
        }
        i += 1;
    }
    assert(order.take(nodes.len() as int) =~= order);
    assert(incoming_fold(order, dr.take(0)) == zero_entries(order));
    let mut e: usize = 0;
    while e < edges.len()
        invariant
            e <= edges.len(),
            order == ids_of(nodes@),
            dr == drafts_view(edges@),
            counts_view(inc@) == incoming_fold(order, dr.take(e as int)),
            bounded(inc@, e as nat),
        decreases edges.len() - e,
    {
        proof {
            assert(dr.take(e + 1).drop_last() =~= dr.take(e as int));
            assert(dr.take(e + 1).last() == dr[e as int]);
        }
        let t = &edges[e].to;
        let ghost m0 = inc@;
        count_or_insert(&mut inc, t.as_str(), 0);
        proof {
            lemma_bounded_or_insert(m0, inc@, t@, 0, e as nat);
        }
        let c = match count_lookup(&inc, t.as_str()) {
            Some(c) => c,
            None => 0,
        };
        proof {
            super::assoc::lemma_index_of(counts_view(inc@), t@);
            match super::assoc::index_of(counts_view(inc@), t@) {
                Some(k) => {
                    assert(counts_view(inc@)[k].1 == inc@[k].1);
                },
                None => {},
            }
        }
        let ghost m1 = inc@;
        count_set(&mut inc, t.as_str(), c + 1);
        proof {
            lemma_bounded_set(m1, inc@, t@, (c + 1) as nat, (e + 1) as nat);
        }
        e += 1;
    }
    assert(dr.take(edges.len() as int) =~= dr);
    // the starting queue
    let mut queue: Vec<String> = Vec::new();
    let mut z: usize = 0;
    while z < inc.len()
        invariant
            z <= inc.len(),
            queue_view(queue@, 0) == zeros(counts_view(inc@).take(z as int)),
        decreases inc.len() - z,
    {
        proof {
            assert(counts_view(inc@).take(z + 1).drop_last() =~= counts_view(inc@).take(z as int));
            assert(counts_view(inc@).take(z + 1).last() == counts_view(inc@)[z as int]);
        }
        if inc[z].1 == 0 {
            let ghost q0 = queue@;
            let o = owned(inc[z].0.as_str());
            queue.push(o);
            proof {
                lemma_queue_push(q0, 0, o);
            }
        }
        z += 1;
    }
    assert(counts_view(inc@).take(inc.len() as int) =~= counts_view(inc@));
    if queue.len() == 0 {
        let mut k: usize = 0;
        while k < nodes.len()
            invariant
                k <= nodes.len(),
                order == ids_of(nodes@),
                queue_view(queue@, 0) == order.take(k as int),
            decreases nodes.len() - k,
        {
            let ghost q0 = queue@;
            let o = owned(nodes[k].id.as_str());
            queue.push(o);
            proof {
                lemma_queue_push(q0, 0, o);
                assert(order[k as int] == nodes@[k as int].id@);
            }
            assert(queue_view(queue@, 0) =~= order.take(k + 1));
            k += 1;
        }
        assert(order.take(nodes.len() as int) =~= order);
    }
    // the walk
    let ghost st0 = LayerState {
        layers: seq![],
        incoming: counts_view(inc@),
        queue: queue_view(queue@, 0),
    };
    assert(st0.queue == start_queue(order, incoming_fold(order, dr)));
    let mut layers: Vec<(String, usize)> = Vec::new();
    assert(counts_view(layers@) =~= seq![]);
    let mut qh: usize = 0;
    let mut fa: usize = nodes.len();
    let mut fb: usize = edges.len();
    let ghost budget = walk_budget(order, dr);
    let ghost spent: nat = 0;
    if fa > usize::MAX - fb {
        fb = usize::MAX - fa;
    }
    while qh < queue.len() && (fa > 0 || fb > 0)
        invariant
            qh <= queue.len(),
            fa + fb + spent == budget,
            budget <= usize::MAX,
            bounded(layers@, spent),
            run(
                LayerState {
                    layers: counts_view(layers@),
                    incoming: counts_view(inc@),
                    queue: queue_view(queue@, qh as int),
                },
                dr,
                (fa + fb) as nat,
            ) == run(st0, dr, budget),
            dr == drafts_view(edges@),
        decreases fa + fb,
    {
        let ghost sq = queue_view(queue@, qh as int);
        assert(sq[0] == queue@[qh as int]@);
        let id = owned(queue[qh].as_str());
        qh += 1;
        assert(queue_view(queue@, qh as int) =~= sq.drop_first());
        let ghost l0 = layers@;
        count_or_insert(&mut layers, id.as_str(), 0);
        proof {
            lemma_bounded_or_insert(l0, layers@, id@, 0, spent);
        }
        let cur = match count_lookup(&layers, id.as_str()) {
            Some(c) => c,
            None => 0,
        };
        proof {
            super::assoc::lemma_index_of(counts_view(layers@), id@);
            match super::assoc::index_of(counts_view(layers@), id@) {
                Some(k) => {
                    assert(counts_view(layers@)[k].1 == layers@[k].1);
                },
                None => {},
            }
            assert(bounded(layers@, spent + 1));
        }
        relax_all(&mut layers, &mut inc, &mut queue, qh, cur, &id, edges, Ghost(spent + 1));
        if fa > 0 {
            fa -= 1;
        } else {
            fb -= 1;
        }
        proof {
            spent = spent + 1;
        }
    }
    // every node gets a layer
    let ghost walked = counts_view(layers@);
    let mut k: usize = 0;
    while k < nodes.len()
        invariant
            k <= nodes.len(),
            order == ids_of(nodes@),
            counts_view(layers@) == fill(walked, order.take(k as int)),
        decreases nodes.len() - k,
    {
        proof {
            assert(order.take(k + 1).drop_last() =~= order.take(k as int));
            assert(order.take(k + 1).last() == order[k as int]);
        }
        count_or_insert(&mut layers, nodes[k].id.as_str(), 0);
        k += 1;
    }
    assert(order.take(nodes.len() as int) =~= order);
    layers
}

} // verus!
