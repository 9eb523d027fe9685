//! Inline content of one markdown block: plain text, re-escaped inline
//! markdown, and styled spans.

use crate::text::{
    chars_of, push_all, str_eq, string_of, trim_end, trim_start, trimmed_end, trimmed_start,
};
use vstd::prelude::*;

verus! {

/// One styled run of inline text.
#[derive(Debug, Clone, Default, PartialEq, Eq)]
pub struct ParsedInlineSpan {
    pub kind: String,
    pub text: String,
    pub bold: bool,
    pub italic: bool,
    pub link: String,
}

/// The value of a [`ParsedInlineSpan`].
pub struct SpanView {
    pub kind: Seq<char>,
    pub text: Seq<char>,
    pub bold: bool,
    pub italic: bool,
    pub link: Seq<char>,
}

impl View for ParsedInlineSpan {
    type V = SpanView;

    open spec fn view(&self) -> SpanView {
        SpanView {
            kind: self.kind@,
            text: self.text@,
            bold: self.bold,
            italic: self.italic,
            link: self.link@,
        }
    }
}

pub open spec fn spans_view(v: Seq<ParsedInlineSpan>) -> Seq<SpanView> {
    v.map_values(|s: ParsedInlineSpan| s@)
}

pub proof fn lemma_spans_view_push(v: Seq<ParsedInlineSpan>, x: ParsedInlineSpan)
    ensures
        spans_view(v.push(x)) == spans_view(v).push(x@),
{
    assert(spans_view(v.push(x)) =~= spans_view(v).push(x@));
}

pub open spec fn strings_view(v: Seq<String>) -> Seq<Seq<char>> {
    v.map_values(|s: String| s@)
}

impl ParsedInlineSpan {
    /// A field-by-field copy.
    pub fn copy(&self) -> (r: Self)
        ensures
            r@ == self@,
    {
        ParsedInlineSpan {
            kind: self.kind.clone(),
            text: self.text.clone(),
            bold: self.bold,
            italic: self.italic,
            link: self.link.clone(),
        }
    }
}

pub fn copy_spans(v: &Vec<ParsedInlineSpan>) -> (r: Vec<ParsedInlineSpan>)
    ensures
        spans_view(r@) == spans_view(v@),
{
    let mut r: Vec<ParsedInlineSpan> = Vec::new();
    let mut i: usize = 0;
    while i < v.len()
        invariant
            i <= v.len(),
            r@.len() == i,
            forall|k: int| 0 <= k < i ==> #[trigger] r@[k]@ == v@[k]@,
        decreases v.len() - i,
    {
        r.push(v[i].copy());
        i += 1;
    }
    assert(spans_view(r@) =~= spans_view(v@));
    r
}

// ---------------------------------------------------------------------------
// Escaping
// ---------------------------------------------------------------------------

/// Characters that carry meaning in inline markdown and are escaped with `\`.
pub open spec fn is_markdown_special(c: char) -> bool {
    c == '*' || c == '_' || c == '`' || c == '[' || c == ']' || c == '<' || c == '>' || c == '&'
        || c == '#' || c == '~' || c == '!' || c == '|'
}

/// `text` with every markdown special character preceded by a backslash.
pub open spec fn escape_inline(s: Seq<char>) -> Seq<char>
    decreases s.len(),
{
    if s.len() == 0 {
        s
    } else if is_markdown_special(s.last()) {
        escape_inline(s.drop_last()) + seq!['\\', s.last()]
    } else {
        escape_inline(s.drop_last()).push(s.last())
    }
}

pub fn escape_inline_markdown(text: &str) -> (r: String)
    ensures
        r@ == escape_inline(text@),
{
    let v = chars_of(text);
    let mut out: Vec<char> = Vec::new();
    let mut i: usize = 0;
    while i < v.len()
        invariant
            i <= v.len(),
            out@ == escape_inline(v@.take(i as int)),
        decreases v.len() - i,
    {
        let c = v[i];
        proof {
            assert(v@.take(i + 1).drop_last() =~= v@.take(i as int));
        }
        if c == '*' || c == '_' || c == '`' || c == '[' || c == ']' || c == '<' || c == '>' || c
            == '&' || c == '#' || c == '~' || c == '!' || c == '|' {
            out.push('\\');
            out.push(c);
            assert(out@ =~= escape_inline(v@.take(i + 1)));
        } else {
            out.push(c);
        }
        i += 1;
    }
    assert(v@.take(v.len() as int) =~= v@);
    string_of(out.as_slice())
}

/// A link destination with `)` written `%29` and spaces `%20`.
pub open spec fn escape_link(s: Seq<char>) -> Seq<char>
    decreases s.len(),
{
    if s.len() == 0 {
        s
    } else if s.last() == ')' {
        escape_link(s.drop_last()) + seq!['%', '2', '9']
    } else if s.last() == ' ' {
        escape_link(s.drop_last()) + seq!['%', '2', '0']
    } else {
        escape_link(s.drop_last()).push(s.last())
    }
}

pub fn escape_link_destination(text: &str) -> (r: String)
    ensures
        r@ == escape_link(text@),
{
    let v = chars_of(text);
    let mut out: Vec<char> = Vec::new();
    let mut i: usize = 0;
    while i < v.len()
        invariant
            i <= v.len(),
            out@ == escape_link(v@.take(i as int)),
        decreases v.len() - i,
    {
        let c = v[i];
        proof {
            assert(v@.take(i + 1).drop_last() =~= v@.take(i as int));
        }
        if c == ')' {
            out.push('%');
            out.push('2');
            out.push('9');
            assert(out@ =~= escape_link(v@.take(i + 1)));
        } else if c == ' ' {
            out.push('%');
            out.push('2');
            out.push('0');
            assert(out@ =~= escape_link(v@.take(i + 1)));
        } else {
            out.push(c);
        }
        i += 1;
    }
    assert(v@.take(v.len() as int) =~= v@);
    string_of(out.as_slice())
}

/// (longest run of `target` so far, length of the current run).
pub open spec fn run_fold(s: Seq<char>, target: char) -> (nat, nat)
    decreases s.len(),
{
    if s.len() == 0 {
        (0, 0)
    } else {
        let (longest, current) = run_fold(s.drop_last(), target);
        if s.last() == target {
            let c = current + 1;
            (if c > longest { c } else { longest }, c)
        } else {
            (longest, 0)
        }
    }
}

/// Length of the longest run of consecutive `target` characters in `s`.
pub open spec fn longest_run_spec(s: Seq<char>, target: char) -> nat {
    run_fold(s, target).0
}

pub proof fn lemma_run_fold_bound(s: Seq<char>, target: char)
    ensures
        run_fold(s, target).0 <= s.len(),
        run_fold(s, target).1 <= run_fold(s, target).0,
    decreases s.len(),
{
    if s.len() > 0 {
        lemma_run_fold_bound(s.drop_last(), target);
    }
}

pub fn longest_run(text: &Vec<char>, target: char) -> (r: usize)
    ensures
        r == longest_run_spec(text@, target),
{
    let mut longest: usize = 0;
    let mut current: usize = 0;
    let mut i: usize = 0;
    while i < text.len()
        invariant
            i <= text.len(),
            (longest as nat, current as nat) == run_fold(text@.take(i as int), target),
        decreases text.len() - i,
    {
        proof {
            assert(text@.take(i + 1).drop_last() =~= text@.take(i as int));
            lemma_run_fold_bound(text@.take(i as int), target);
        }
        if text[i] == target {
            current += 1;
            if current > longest {
                longest = current;
            }
        } else {
            current = 0;
        }
        i += 1;
    }
    assert(text@.take(text.len() as int) =~= text@);
    longest
}

/// `n` backticks.
pub open spec fn backticks(n: nat) -> Seq<char> {
    Seq::new(n, |i: int| '`')
}

/// An inline code span for `code`: a backtick fence one longer than the
/// longest run of backticks inside, padded with spaces when the code starts
/// or ends with a backtick or a space.
pub open spec fn code_span(code: Seq<char>) -> Seq<char> {
    let fence = backticks(longest_run_spec(code, '`') + 1);
    let needs_padding = code.len() > 0 && (code[0] == '`' || code.last() == '`' || code[0] == ' '
        || code.last() == ' ');
    if needs_padding {
        fence + seq![' '] + code + seq![' '] + fence
    } else {
        fence + code + fence
    }
}

pub fn code_span_markdown(code: &str) -> (r: Vec<char>)
    ensures
        r@ == code_span(code@),
{
    let v = chars_of(code);
    let run = longest_run(&v, '`');
    proof {
        lemma_run_fold_bound(v@, '`');
    }
    let mut fence: Vec<char> = Vec::new();
    fence.push('`');
    let mut k: usize = 0;
    while k < run
        invariant
            k <= run,
            fence@ == backticks((k + 1) as nat),
        decreases run - k,
    {
        fence.push('`');
        k += 1;
        assert(fence@ =~= backticks((k + 1) as nat));
    }
    assert(fence@ =~= backticks((run + 1) as nat));
    let n = v.len();
    let needs_padding = n > 0 && (v[0] == '`' || v[n - 1] == '`' || v[0] == ' ' || v[n - 1]
        == ' ');
    let mut out: Vec<char> = Vec::new();
    push_all(&mut out, &fence);
    if needs_padding {
        out.push(' ');
    }
    push_all(&mut out, &v);
    if needs_padding {
        out.push(' ');
    }
    push_all(&mut out, &fence);
    proof {
        if needs_padding {
            assert(out@ =~= fence@ + seq![' '] + v@ + seq![' '] + fence@);
        } else {
            assert(out@ =~= fence@ + v@ + fence@);
        }
    }
    out
}

// ---------------------------------------------------------------------------
// Span trimming
// ---------------------------------------------------------------------------

/// Drops trailing line-break spans and whitespace-only spans, and trims the
/// end of the last remaining span.
pub open spec fn trim_trailing_spans(spans: Seq<SpanView>) -> Seq<SpanView>
    decreases spans.len(),
{
    if spans.len() == 0 {
        spans
    } else if spans.last().kind == "break"@ {
        trim_trailing_spans(spans.drop_last())
    } else if trim_end(spans.last().text).len() == 0 {
        trim_trailing_spans(spans.drop_last())
    } else {
        spans.drop_last().push(SpanView { text: trim_end(spans.last().text), ..spans.last() })
    }
}

/// Drops leading line-break spans and whitespace-only spans, and trims the
/// start of the first remaining span.
pub open spec fn trim_leading_spans(spans: Seq<SpanView>) -> Seq<SpanView>
    decreases spans.len(),
{
    if spans.len() == 0 {
        spans
    } else if spans[0].kind == "break"@ {
        trim_leading_spans(spans.drop_first())
    } else if trim_start(spans[0].text).len() == 0 {
        trim_leading_spans(spans.drop_first())
    } else {
        spans.update(0, SpanView { text: trim_start(spans[0].text), ..spans[0] })
    }
}

pub fn trim_trailing_inline_spans(spans: &mut Vec<ParsedInlineSpan>)
    ensures
        spans_view(final(spans)@) == trim_trailing_spans(spans_view(old(spans)@)),
{
    let ghost goal = trim_trailing_spans(spans_view(spans@));
    loop
        invariant
            trim_trailing_spans(spans_view(spans@)) == goal,
            goal == trim_trailing_spans(spans_view(old(spans)@)),
        decreases spans.len(),
    {
        if spans.len() == 0 {
            proof {
                assert(spans_view(spans@) =~= Seq::<SpanView>::empty());
            }
            return;
        }
        let n = spans.len();
        let ghost sv = spans_view(spans@);
        proof {
            assert(spans_view(spans@.drop_last()) =~= spans_view(spans@).drop_last());
            assert(sv.last() == spans@[n - 1]@);
        }
        if str_eq(spans[n - 1].kind.as_str(), "break") {
            spans.pop();
            continue;
        }
        let t = trimmed_end(spans[n - 1].text.as_str());
        if t.as_str().is_empty() {
            spans.pop();
            continue;
        }
        proof {
            assert(t@.len() > 0) by {
                if t@.len() == 0 {
                    assert(t@.len() == 0);
                }
            }
        }
        let mut last = spans.pop().unwrap();
        last.text = t;
        spans.push(last);
        proof {
            assert(trim_trailing_spans(sv) == sv.drop_last().push(
                SpanView { text: trim_end(sv.last().text), ..sv.last() },
            ));
            assert(spans_view(spans@) =~= sv.drop_last().push(
                SpanView { text: trim_end(sv.last().text), ..sv.last() },
            ));
        }
        return;
    }
}

pub fn trim_leading_inline_spans(spans: &mut Vec<ParsedInlineSpan>)
    ensures
        spans_view(final(spans)@) == trim_leading_spans(spans_view(old(spans)@)),
{
    let ghost goal = trim_leading_spans(spans_view(spans@));
    loop
        invariant
            trim_leading_spans(spans_view(spans@)) == goal,
            goal == trim_leading_spans(spans_view(old(spans)@)),
        decreases spans.len(),
    {
        if spans.len() == 0 {
            proof {
                assert(spans_view(spans@) =~= Seq::<SpanView>::empty());
            }
            return;
        }
        let ghost sv = spans_view(spans@);
        proof {
            assert(spans_view(spans@.remove(0)) =~= spans_view(spans@).drop_first());
            assert(sv[0] == spans@[0]@);
        }
        if str_eq(spans[0].kind.as_str(), "break") {
            spans.remove(0);
            continue;
        }
        let t = trimmed_start(spans[0].text.as_str());
        if t.as_str().is_empty() {
            spans.remove(0);
            continue;
        }
        let mut first = spans[0].copy();
        first.text = t;
        spans.set(0, first);
        proof {
            assert(trim_leading_spans(sv) == sv.update(
                0,
                SpanView { text: trim_start(sv[0].text), ..sv[0] },
            ));
            assert(spans_view(spans@) =~= sv.update(
                0,
                SpanView { text: trim_start(sv[0].text), ..sv[0] },
            ));
        }
        return;
    }
}

pub fn trim_inline_spans(spans: &mut Vec<ParsedInlineSpan>)
    ensures
        spans_view(final(spans)@) == trim_trailing_spans(
            trim_leading_spans(spans_view(old(spans)@)),
        ),
{
    trim_leading_inline_spans(spans);
    trim_trailing_inline_spans(spans);
}

/// Whether any span carries styling: a kind other than plain text or line
/// break, bold, italic, or a link.
pub open spec fn spans_styled(spans: Seq<SpanView>) -> bool {
    exists|i: int|
        0 <= i < spans.len() && {
            let s = #[trigger] spans[i];
            (s.kind != "text"@ && s.kind != "break"@) || s.bold || s.italic || s.link.len() > 0
        }
}

pub fn should_render_inline_spans(spans: &Vec<ParsedInlineSpan>) -> (r: bool)
    ensures
        r == spans_styled(spans_view(spans@)),
{
    let mut i: usize = 0;
    while i < spans.len()
        invariant
            i <= spans.len(),
            forall|j: int|
                0 <= j < i ==> {
                    let s = #[trigger] spans_view(spans@)[j];
                    !((s.kind != "text"@ && s.kind != "break"@) || s.bold || s.italic
                        || s.link.len() > 0)
                },
        decreases spans.len() - i,
    {
        let s = &spans[i];
        let plain = str_eq(s.kind.as_str(), "text") || str_eq(s.kind.as_str(), "break");
        if !plain || s.bold || s.italic || !s.link.as_str().is_empty() {
            proof {
                assert(spans_view(spans@)[i as int] == spans@[i as int]@);
            }
            return true;
        }
        proof {
            assert(spans_view(spans@)[i as int] == spans@[i as int]@);
        }
        i += 1;
    }
    false
}

} // verus!
