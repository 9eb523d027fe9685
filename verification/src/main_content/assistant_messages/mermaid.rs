//! Mermaid flowcharts: statements, nodes and edges.

use crate::text::{
    chars_of, contains, find, find_char, find_char_chars, find_chars, lemma_find_char_bound,
    lemma_find_some, lemma_rfind_char_bound, lemma_rfind_some, occurs_at, rfind, rfind_char,
    rfind_char_chars, rfind_chars, slice_chars, string_of, trim, trim_c, trim_c_chars, trim_chars,
};
use vstd::prelude::*;

verus! {

/// A node as written in one statement: id, label and shape.
#[derive(Debug, Clone)]
pub struct MermaidEndpoint {
    pub id: String,
    pub label: String,
    pub shape: String,
}

pub open spec fn ep_view(e: MermaidEndpoint) -> (Seq<char>, Seq<char>, Seq<char>) {
    (e.id@, e.label@, e.shape@)
}

/// Whether `c` opens a node shape.
pub open spec fn is_opener(c: char) -> bool {
    c == '[' || c == '(' || c == '{'
}

/// Index of the first shape opener in `s`, or its length.
pub open spec fn first_opener(s: Seq<char>) -> nat
    decreases s.len(),
{
    if s.len() == 0 {
        0
    } else if is_opener(s[0]) {
        0
    } else {
        1 + first_opener(s.drop_first())
    }
}

pub proof fn lemma_first_opener(s: Seq<char>, i: int)
    requires
        0 <= i <= s.len(),
        forall|j: int| 0 <= j < i ==> !is_opener(#[trigger] s[j]),
        i == s.len() || is_opener(s[i]),
    ensures
        first_opener(s) == i,
    decreases i,
{
    if i > 0 {
        assert(!is_opener(s[0]));
        lemma_first_opener(s.drop_first(), i - 1);
    }
}

pub open spec fn closer_of(o: char) -> char {
    if o == '(' {
        ')'
    } else if o == '{' {
        '}'
    } else {
        ']'
    }
}

/// A node reference such as `A`, `A[Start]`, `B(Round)` or `C{Choice}`:
/// its id, its label (the id when no shape is given, and the id defaults to
/// the label when only a shape is given) and its shape.
pub open spec fn endpoint(raw: Seq<char>) -> (Seq<char>, Seq<char>, Seq<char>) {
    let t = trim(trim_c(trim(raw), ';'));
    let ss = first_opener(t);
    if ss >= t.len() {
        let id = trim_c(t, '"');
        (id, id, "rect"@)
    } else {
        let id = trim_c(trim(t.take(ss as int)), '"');
        let o = t[ss as int];
        let after = t.skip((ss + 1) as int);
        let content = match rfind_char(after, closer_of(o)) {
            Some(k) => after.take(k),
            None => seq![],
        };
        let label = trim_c(trim(content), '"');
        let shape = if o == '(' {
            "round"@
        } else if o == '{' {
            "decision"@
        } else {
            "rect"@
        };
        (if id.len() == 0 {
            label
        } else {
            id
        }, label, shape)
    }
}

pub fn parse_mermaid_endpoint(raw: &Vec<char>) -> (r: MermaidEndpoint)
    ensures
        ep_view(r) == endpoint(raw@),
{
    let a = trim_chars(raw);
    let b = trim_c_chars(&a, ';');
    let t = trim_chars(&b);
    let mut ss: usize = 0;
    while ss < t.len() && !(t[ss] == '[' || t[ss] == '(' || t[ss] == '{')
        invariant
            ss <= t.len(),
            forall|j: int| 0 <= j < ss ==> !is_opener(#[trigger] t@[j]),
        decreases t.len() - ss,
    {
        ss += 1;
    }
    proof {
        lemma_first_opener(t@, ss as int);
    }
    if ss == t.len() {
        let id = trim_c_chars(&t, '"');
        let ids = string_of(id.as_slice());
        return MermaidEndpoint {
            id: ids.clone(),
            label: ids,
            shape: crate::text::owned("rect"),
        };
    }
    let head = slice_chars(&t, 0, ss);
    let head_t = trim_chars(&head);
    let id = trim_c_chars(&head_t, '"');
    let o = t[ss];
    let closer = if o == '(' {
        ')'
    } else if o == '{' {
        '}'
    } else {
        ']'
    };
    let after = slice_chars(&t, ss + 1, t.len());
    assert(after@ =~= t@.skip(ss + 1));
    let content = match rfind_char_chars(&after, closer) {
        Some(k) => {
            proof {
                lemma_rfind_char_bound(after@, closer);
            }
            slice_chars(&after, 0, k)
        },
        None => Vec::new(),
    };
    proof {
        assert(head@ =~= t@.take(ss as int));
        match rfind_char(after@, closer) {
            Some(k) => {
                assert(content@ =~= after@.take(k));
            },
            None => {
                assert(content@ =~= Seq::<char>::empty());
            },
        }
    }
    let content_t = trim_chars(&content);
    let label = trim_c_chars(&content_t, '"');
    let shape = if o == '(' {
        crate::text::owned("round")
    } else if o == '{' {
        crate::text::owned("decision")
    } else {
        crate::text::owned("rect")
    };
    let label_s = string_of(label.as_slice());
    let id_s = if id.len() == 0 {
        label_s.clone()
    } else {
        string_of(id.as_slice())
    };
    MermaidEndpoint { id: id_s, label: label_s, shape }
}

/// The first `|`-delimited label inside an edge operator, trimmed.
pub open spec fn edge_label(op: Seq<char>) -> Seq<char> {
    match find_char(op, '|') {
        Some(s) => match find_char(op.skip(s + 1), '|') {
            Some(e) => trim(op.subrange(s + 1, s + 1 + e)),
            None => seq![],
        },
        None => seq![],
    }
}

pub fn parse_mermaid_edge_label(op: &Vec<char>) -> (r: Vec<char>)
    ensures
        r@ == edge_label(op@),
{
    let n = op.len();
    match find_char_chars(op, '|') {
        Some(s) => {
            proof {
                lemma_find_char_bound(op@, '|');
                assert(find_char(op@, '|') == Some(s as int));
                assert(s < op@.len());
            }
            let rest = slice_chars(op, s + 1, n);
            assert(rest@ =~= op@.skip(s + 1));
            match find_char_chars(&rest, '|') {
                Some(e) => {
                    proof {
                        lemma_find_char_bound(rest@, '|');
                        assert(find_char(rest@, '|') == Some(e as int));
                        assert(e < rest@.len());
                    }
                    let inner = slice_chars(op, s + 1, s + 1 + e);
                    trim_chars(&inner)
                },
                None => Vec::new(),
            }
        },
        None => Vec::new(),
    }
}

/// Where `op` matches in `st`, the range of the whole operator: a
/// `--|label|` prefix before it and a `|label|` suffix after it belong to it.
pub open spec fn op_range(st: Seq<char>, op: Seq<char>) -> Option<(int, int)> {
    match find(st, op) {
        None => None,
        Some(idx) => {
            let start = match rfind(st.take(idx), "--|"@) {
                Some(ls) => if st.subrange(ls + 3, idx).contains('|') {
                    ls
                } else {
                    idx
                },
                None => idx,
            };
            let end0 = idx + op.len();
            let end = if end0 < st.len() && st[end0] == '|' {
                match find_char(st.skip(end0 + 1), '|') {
                    Some(le) => end0 + le + 2,
                    None => end0,
                }
            } else {
                end0
            };
            Some((start, end))
        },
    }
}

/// The earlier-starting of two operator ranges, the first one on a tie.
pub open spec fn best_range(b: Option<(int, int)>, r: Option<(int, int)>) -> Option<(int, int)> {
    match r {
        None => b,
        Some(rr) => match b {
            Some(e) => if e.0 <= rr.0 {
                b
            } else {
                r
            },
            None => r,
        },
    }
}

/// The operator of an edge statement: the earliest-starting of `-->`,
/// `==>`, `-.->` and `---`.
pub open spec fn find_op(st: Seq<char>) -> Option<(int, int)> {
    best_range(
        best_range(
            best_range(best_range(None, op_range(st, "-->"@)), op_range(st, "==>"@)),
            op_range(st, "-.->"@),
        ),
        op_range(st, "---"@),
    )
}

pub open spec fn range_ok(st: Seq<char>, r: Option<(int, int)>) -> bool {
    match r {
        Some(rr) => 0 <= rr.0 <= rr.1 <= st.len(),
        None => true,
    }
}

fn operator_range(st: &Vec<char>, op: &Vec<char>) -> (r: Option<(usize, usize)>)
    requires
        op@.len() > 0,
    ensures
        match r {
            Some(rr) => op_range(st@, op@) == Some((rr.0 as int, rr.1 as int)),
            None => op_range(st@, op@) is None,
        },
        range_ok(st@, op_range(st@, op@)),
{
    let n = st.len();
    let idx = match find_chars(st, op) {
        Some(i) => i,
        None => {
            return None;
        },
    };
    proof {
        lemma_find_some(st@, op@, idx as int);
        assert(occurs_at(st@, op@, idx as int));
        assert(idx + op@.len() <= n);
    }
    let mut start = idx;
    let prefix = slice_chars(st, 0, idx);
    assert(prefix@ =~= st@.take(idx as int));
    let marker = chars_of("--|");
    proof {
        reveal_strlit("--|");
        assert(marker@.len() == 3);
    }
    match rfind_chars(&prefix, &marker) {
        Some(ls) => {
            proof {
                lemma_rfind_some(prefix@, marker@, ls as int);
                assert(occurs_at(prefix@, marker@, ls as int));
            }
            let between = slice_chars(st, ls + 3, idx);
            if crate::text::contains_char(&between, '|') {
                start = ls;
            }
        },
        None => {},
    }
    let end0 = idx + op.len();
    let mut end = end0;
    if end0 < st.len() && st[end0] == '|' {
        let after = slice_chars(st, end0 + 1, st.len());
        assert(after@ =~= st@.skip(end0 + 1));
        match find_char_chars(&after, '|') {
            Some(le) => {
                proof {
                    lemma_find_char_bound(after@, '|');
                }
                end = end0 + le + 2;
            },
            None => {},
        }
    }
    Some((start, end))
}

fn pick_range(b: Option<(usize, usize)>, r: Option<(usize, usize)>) -> (o: Option<(usize, usize)>)
    ensures
        match o {
            Some(oo) => best_range(
                match b {
                    Some(x) => Some((x.0 as int, x.1 as int)),
                    None => None,
                },
                match r {
                    Some(x) => Some((x.0 as int, x.1 as int)),
                    None => None,
                },
            ) == Some((oo.0 as int, oo.1 as int)),
            None => best_range(
                match b {
                    Some(x) => Some((x.0 as int, x.1 as int)),
                    None => None,
                },
                match r {
                    Some(x) => Some((x.0 as int, x.1 as int)),
                    None => None,
                },
            ) is None,
        },
        (o == b || o == r),
{
    match r {
        None => b,
        Some(rr) => match b {
            Some(e) => if e.0 <= rr.0 {
                b
            } else {
                r
            },
            None => r,
        },
    }
}

pub fn find_mermaid_operator(st: &Vec<char>) -> (r: Option<(usize, usize)>)
    ensures
        match r {
            Some(rr) => find_op(st@) == Some((rr.0 as int, rr.1 as int)) && rr.0 <= rr.1 <= st.len(),
            None => find_op(st@) is None,
        },
{
    let o1 = chars_of("-->");
    let o2 = chars_of("==>");
    let o3 = chars_of("-.->");
    let o4 = chars_of("---");
    proof {
        reveal_strlit("-->");
        reveal_strlit("==>");
        reveal_strlit("-.->");
        reveal_strlit("---");
        assert(o1@.len() > 0 && o2@.len() > 0 && o3@.len() > 0 && o4@.len() > 0);
    }
    let r1 = operator_range(st, &o1);
    let r2 = operator_range(st, &o2);
    let r3 = operator_range(st, &o3);
    let r4 = operator_range(st, &o4);
    let b1 = pick_range(None, r1);
    let b2 = pick_range(b1, r2);
    let b3 = pick_range(b2, r3);
    let b4 = pick_range(b3, r4);
    b4
}

/// An edge statement `from <operator> to`: both endpoints and the label.
pub open spec fn edge_statement(st: Seq<char>) -> Option<
    ((Seq<char>, Seq<char>, Seq<char>), (Seq<char>, Seq<char>, Seq<char>), Seq<char>),
> {
    match find_op(st) {
        None => None,
        Some(r) => {
            let from = trim(st.take(r.0));
            let op = trim(st.subrange(r.0, r.1));
            let to = trim(st.skip(r.1));
            if from.len() == 0 || to.len() == 0 {
                None
            } else {
                Some((endpoint(from), endpoint(to), edge_label(op)))
            }
        },
    }
}

pub fn parse_mermaid_edge_statement(st: &Vec<char>) -> (r: Option<
    (MermaidEndpoint, MermaidEndpoint, Vec<char>),
>)
    ensures
        match r {
            Some(e) => edge_statement(st@) == Some((ep_view(e.0), ep_view(e.1), e.2@)),
            None => edge_statement(st@) is None,
        },
{
    let (start, end) = match find_mermaid_operator(st) {
        Some(r) => r,
        None => {
            return None;
        },
    };
    let f = slice_chars(st, 0, start);
    let o = slice_chars(st, start, end);
    let t = slice_chars(st, end, st.len());
    assert(f@ =~= st@.take(start as int));
    assert(t@ =~= st@.skip(end as int));
    let from = trim_chars(&f);
    let op = trim_chars(&o);
    let to = trim_chars(&t);
    if from.len() == 0 || to.len() == 0 {
        return None;
    }
    let a = parse_mermaid_endpoint(&from);
    let b = parse_mermaid_endpoint(&to);
    let l = parse_mermaid_edge_label(&op);
    Some((a, b, l))
}

} // verus!
