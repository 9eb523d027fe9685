//! Accumulation of the inline content of one block.

use super::cmark::{MdTag, MdTagEnd};
use super::inline::{
    code_span, code_span_markdown, escape_inline, escape_inline_markdown, escape_link,
    escape_link_destination, lemma_spans_view_push, spans_view, strings_view, trim_trailing_inline_spans,
    trim_trailing_spans, ParsedInlineSpan, SpanView,
};
use crate::text::{chars_of, is_whitespace, is_ws, owned, string_of, string_push, string_push_str};
use vstd::prelude::*;

verus! {

/// Inline content gathered for the block being parsed: its plain text, its
/// inline markdown, its spans, and the emphasis, strong and link nesting.
pub struct InlineAccumulator {
    pub plain: String,
    pub markdown: String,
    pub spans: Vec<ParsedInlineSpan>,
    pub emphasis_depth: usize,
    pub strong_depth: usize,
    pub link_stack: Vec<String>,
    pub image_stack: Vec<String>,
}

/// The value of an [`InlineAccumulator`].
pub struct AccView {
    pub plain: Seq<char>,
    pub markdown: Seq<char>,
    pub spans: Seq<SpanView>,
    pub emphasis: nat,
    pub strong: nat,
    pub links: Seq<Seq<char>>,
    pub images: Seq<Seq<char>>,
}

impl View for InlineAccumulator {
    type V = AccView;

    open spec fn view(&self) -> AccView {
        AccView {
            plain: self.plain@,
            markdown: self.markdown@,
            spans: spans_view(self.spans@),
            emphasis: self.emphasis_depth as nat,
            strong: self.strong_depth as nat,
            links: strings_view(self.link_stack@),
            images: strings_view(self.image_stack@),
        }
    }
}

pub open spec fn acc_with_spans(a: AccView, spans: Seq<SpanView>) -> AccView {
    AccView { spans, ..a }
}

/// The empty accumulator.
pub open spec fn acc_empty() -> AccView {
    AccView {
        plain: seq![],
        markdown: seq![],
        spans: seq![],
        emphasis: 0,
        strong: 0,
        links: seq![],
        images: seq![],
    }
}

/// The innermost open link's destination, or empty outside links.
pub open spec fn cur_link(a: AccView) -> Seq<char> {
    if a.links.len() > 0 {
        a.links.last()
    } else {
        seq![]
    }
}

/// The styling the current nesting gives: (bold, italic, link).
pub open spec fn style(a: AccView) -> (bool, bool, Seq<char>) {
    (a.strong > 0, a.emphasis > 0, cur_link(a))
}

/// A span of `kind` holding `text` with the styling `st`.
pub open spec fn styled(st: (bool, bool, Seq<char>), kind: Seq<char>, text: Seq<char>) -> SpanView {
    SpanView { kind, text, bold: st.0, italic: st.1, link: st.2 }
}

/// A span of `kind` holding `text`, styled by the current nesting.
pub open spec fn mk_span(a: AccView, kind: Seq<char>, text: Seq<char>) -> SpanView {
    styled(style(a), kind, text)
}

/// Adds a span, unless it would hold no text and is not a line break.
pub open spec fn acc_push_span(a: AccView, kind: Seq<char>, text: Seq<char>) -> AccView {
    if text.len() == 0 && kind != "break"@ {
        a
    } else {
        AccView { spans: a.spans.push(mk_span(a, kind, text)), ..a }
    }
}

/// Splitting text into spans, one character at a time: (spans so far,
/// pending word). A newline closes the pending word and adds a line break;
/// whitespace closes the word it ends.
pub open spec fn seg_fold(st: (bool, bool, Seq<char>), text: Seq<char>) -> (
    Seq<SpanView>,
    Seq<char>,
)
    decreases text.len(),
{
    if text.len() == 0 {
        (seq![], seq![])
    } else {
        let (spans, seg) = seg_fold(st, text.drop_last());
        let c = text.last();
        if c == '\n' {
            let spans1 = if seg.len() > 0 {
                spans.push(styled(st, "text"@, seg))
            } else {
                spans
            };
            (spans1.push(styled(st, "break"@, seq![])), seq![])
        } else if is_ws(c) {
            (spans.push(styled(st, "text"@, seg.push(c))), seq![])
        } else {
            (spans, seg.push(c))
        }
    }
}

/// The spans `text` splits into.
pub open spec fn text_segments(a: AccView, text: Seq<char>) -> Seq<SpanView> {
    let (spans, seg) = seg_fold(style(a), text);
    if seg.len() > 0 {
        spans.push(mk_span(a, "text"@, seg))
    } else {
        spans
    }
}

pub open spec fn acc_push_text(a: AccView, text: Seq<char>) -> AccView {
    AccView {
        plain: a.plain + text,
        markdown: a.markdown + escape_inline(text),
        spans: a.spans + text_segments(a, text),
        ..a
    }
}

pub open spec fn code_markdown(text: Seq<char>) -> Seq<char> {
    "<font color='#e06c75'>"@ + code_span(text) + "</font>"@
}

pub open spec fn acc_push_code(a: AccView, text: Seq<char>) -> AccView {
    acc_push_span(
        AccView { plain: a.plain + text, markdown: a.markdown + code_markdown(text), ..a },
        "code"@,
        text,
    )
}

pub open spec fn math_text(text: Seq<char>) -> Seq<char> {
    seq!['$'] + text + seq!['$']
}

pub open spec fn acc_push_inline_math(a: AccView, text: Seq<char>) -> AccView {
    acc_push_span(
        AccView {
            plain: a.plain + math_text(text),
            markdown: a.markdown + escape_inline(math_text(text)),
            ..a
        },
        "math"@,
        text,
    )
}

pub open spec fn acc_push_plain_break(a: AccView, markdown_break: Seq<char>) -> AccView {
    AccView {
        plain: a.plain.push('\n'),
        markdown: a.markdown + markdown_break,
        spans: a.spans.push(mk_span(a, "break"@, seq![])),
        ..a
    }
}

pub open spec fn acc_push_space(a: AccView) -> AccView {
    acc_push_span(
        AccView { plain: a.plain.push(' '), markdown: a.markdown.push(' '), ..a },
        "text"@,
        seq![' '],
    )
}

/// Kinds of opening tags the accumulator reacts to, with their payload.
pub open spec fn acc_start_tag(a: AccView, tag: MdTag) -> AccView {
    match tag {
        MdTag::Emphasis => AccView { emphasis: a.emphasis + 1, markdown: a.markdown.push('*'), ..a },
        MdTag::Strong => AccView { strong: a.strong + 1, markdown: a.markdown + "**"@, ..a },
        MdTag::Strikethrough => AccView { markdown: a.markdown + "~~"@, ..a },
        MdTag::Link(dest) => AccView {
            markdown: a.markdown.push('['),
            links: a.links.push(dest@),
            ..a
        },
        MdTag::Image(dest) => AccView {
            markdown: a.markdown + "!["@,
            images: a.images.push(dest@),
            ..a
        },
        _ => a,
    }
}

pub open spec fn sat_dec(n: nat) -> nat {
    if n > 0 {
        (n - 1) as nat
    } else {
        0
    }
}

pub open spec fn last_or_empty(s: Seq<Seq<char>>) -> Seq<char> {
    if s.len() > 0 {
        s.last()
    } else {
        seq![]
    }
}

pub open spec fn drop_last_or_empty(s: Seq<Seq<char>>) -> Seq<Seq<char>> {
    if s.len() > 0 {
        s.drop_last()
    } else {
        s
    }
}

pub open spec fn link_close(dest: Seq<char>) -> Seq<char> {
    "]("@ + escape_link(dest) + seq![')']
}

pub open spec fn acc_end_tag(a: AccView, tag: MdTagEnd) -> AccView {
    match tag {
        MdTagEnd::Emphasis => AccView {
            emphasis: sat_dec(a.emphasis),
            markdown: a.markdown.push('*'),
            ..a
        },
        MdTagEnd::Strong => AccView {
            strong: sat_dec(a.strong),
            markdown: a.markdown + "**"@,
            ..a
        },
        MdTagEnd::Strikethrough => AccView { markdown: a.markdown + "~~"@, ..a },
        MdTagEnd::Link => AccView {
            markdown: a.markdown + link_close(last_or_empty(a.links)),
            links: drop_last_or_empty(a.links),
            ..a
        },
        MdTagEnd::Image => AccView {
            markdown: a.markdown + link_close(last_or_empty(a.images)),
            images: drop_last_or_empty(a.images),
            ..a
        },
        _ => a,
    }
}

/// The spans of a finished block, with trailing breaks and whitespace removed.
pub open spec fn acc_trimmed_spans(a: AccView) -> Seq<SpanView> {
    trim_trailing_spans(a.spans)
}

/// Nesting depths stay below `usize::MAX`, so one more level fits.
pub open spec fn acc_depth_ok(a: AccView) -> bool {
    a.emphasis < usize::MAX && a.strong < usize::MAX
}

impl InlineAccumulator {
    pub fn new() -> (r: Self)
        ensures
            r@ == acc_empty(),
    {
        let r = InlineAccumulator {
            plain: String::new(),
            markdown: String::new(),
            spans: Vec::new(),
            emphasis_depth: 0,
            strong_depth: 0,
            link_stack: Vec::new(),
            image_stack: Vec::new(),
        };
        assert(r@.spans =~= seq![]);
        assert(r@.links =~= seq![]);
        assert(r@.images =~= seq![]);
        r
    }

    pub fn current_link(&self) -> (r: String)
        ensures
            r@ == cur_link(self@),
    {
        let n = self.link_stack.len();
        if n > 0 {
            self.link_stack[n - 1].clone()
        } else {
            String::new()
        }
    }

    fn make_span(&self, kind: &str, text: &str) -> (r: ParsedInlineSpan)
        ensures
            r@ == mk_span(self@, kind@, text@),
    {
        ParsedInlineSpan {
            kind: owned(kind),
            text: owned(text),
            bold: self.strong_depth > 0,
            italic: self.emphasis_depth > 0,
            link: self.current_link(),
        }
    }

    pub fn push_span(&mut self, kind: &str, text: &str)
        ensures
            final(self)@ == acc_push_span(old(self)@, kind@, text@),
    {
        if text.is_empty() && !crate::text::str_eq(kind, "break") {
            return;
        }
        let span = self.make_span(kind, text);
        self.spans.push(span);
        assert(self@.spans =~= old(self)@.spans.push(span@));
    }

    pub fn push_text_segments(&mut self, text: &str)
        ensures
            final(self)@ == acc_with_spans(
                old(self)@,
                old(self)@.spans + text_segments(old(self)@, text@),
            ),
    {
        let v = chars_of(text);
        let ghost a0 = self@;
        let mut segment: Vec<char> = Vec::new();
        let mut i: usize = 0;
        while i < v.len()
            invariant
                i <= v.len(),
                v@ == text@,
                self@ == acc_with_spans(a0, a0.spans + seg_fold(style(a0), v@.take(i as int)).0),
                segment@ == seg_fold(style(a0), v@.take(i as int)).1,
            decreases v.len() - i,
        {
            let c = v[i];
            let ghost prev = seg_fold(style(a0), v@.take(i as int));
            let ghost next = seg_fold(style(a0), v@.take(i + 1));
            proof {
                assert(v@.take(i + 1).drop_last() =~= v@.take(i as int));
                assert(v@.take(i + 1).last() == c);
                assert(mk_span(self@, "text"@, seq![]).bold == mk_span(a0, "text"@, seq![]).bold);
            }
            if c == '\n' {
                let ghost spans1 = if prev.1.len() > 0 {
                    prev.0.push(mk_span(a0, "text"@, prev.1))
                } else {
                    prev.0
                };
                if segment.len() > 0 {
                    let s = string_of(segment.as_slice());
                    let span = self.make_span("text", s.as_str());
                    proof {
                        lemma_spans_view_push(self.spans@, span);
                    }
                    self.spans.push(span);
                    segment = Vec::new();
                    proof {
                        assert(span@ == mk_span(a0, "text"@, prev.1));
                    }
                }
                proof {
                    assert(self@.spans =~= a0.spans + spans1);
                    reveal_strlit("");
                    assert(""@ =~= Seq::<char>::empty());
                }
                let brk = self.make_span("break", "");
                proof {
                    lemma_spans_view_push(self.spans@, brk);
                }
                self.spans.push(brk);
                proof {
                    assert(brk@ == mk_span(a0, "break"@, seq![]));
                    assert(next == (spans1.push(mk_span(a0, "break"@, seq![])), Seq::<char>::empty()));
                }
            } else if is_whitespace(c) {
                segment.push(c);
                let s = string_of(segment.as_slice());
                let span = self.make_span("text", s.as_str());
                proof {
                    lemma_spans_view_push(self.spans@, span);
                }
                self.spans.push(span);
                segment = Vec::new();
                proof {
                    assert(span@ == mk_span(a0, "text"@, prev.1.push(c)));
                    assert(next == (prev.0.push(mk_span(a0, "text"@, prev.1.push(c))), Seq::<char>::empty()));
                }
            } else {
                segment.push(c);
                proof {
                    assert(next == (prev.0, prev.1.push(c)));
                }
            }
            i += 1;
            proof {
                assert(self@.spans =~= a0.spans + next.0);
                assert(segment@ =~= next.1);
            }
        }
        assert(v@.take(v.len() as int) =~= v@);
        let ghost fin = seg_fold(style(a0), text@);
        if segment.len() > 0 {
            let s = string_of(segment.as_slice());
            let span = self.make_span("text", s.as_str());
            proof {
                lemma_spans_view_push(self.spans@, span);
            }
            self.spans.push(span);
            proof {
                assert(span@ == mk_span(a0, "text"@, fin.1));
            }
        }
        assert(self@.spans =~= a0.spans + text_segments(a0, text@));
    }

    pub fn push_text(&mut self, text: &str)
        ensures
            final(self)@ == acc_push_text(old(self)@, text@),
    {
        string_push_str(&mut self.plain, text);
        let esc = escape_inline_markdown(text);
        string_push_str(&mut self.markdown, esc.as_str());
        assert(style(self@) == style(old(self)@));
        self.push_text_segments(text);
    }

    pub fn push_code(&mut self, text: &str)
        ensures
            final(self)@ == acc_push_code(old(self)@, text@),
    {
        string_push_str(&mut self.plain, text);
        let mut styled: Vec<char> = Vec::new();
        crate::text::push_str_chars(&mut styled, "<font color='#e06c75'>");
        let span = code_span_markdown(text);
        crate::text::push_all(&mut styled, &span);
        crate::text::push_str_chars(&mut styled, "</font>");
        let s = string_of(styled.as_slice());
        string_push_str(&mut self.markdown, s.as_str());
        self.push_span("code", text);
    }

    pub fn push_inline_math(&mut self, text: &str)
        ensures
            final(self)@ == acc_push_inline_math(old(self)@, text@),
    {
        let mut m: Vec<char> = Vec::new();
        m.push('$');
        crate::text::push_str_chars(&mut m, text);
        m.push('$');
        assert(m@ =~= math_text(text@));
        let math = string_of(m.as_slice());
        string_push_str(&mut self.plain, math.as_str());
        let esc = escape_inline_markdown(math.as_str());
        string_push_str(&mut self.markdown, esc.as_str());
        self.push_span("math", text);
    }

    pub fn push_plain_break(&mut self, markdown_break: &str)
        ensures
            final(self)@ == acc_push_plain_break(old(self)@, markdown_break@),
    {
        string_push(&mut self.plain, '\n');
        string_push_str(&mut self.markdown, markdown_break);
        proof {
            reveal_strlit("");
            assert(""@ =~= Seq::<char>::empty());
        }
        let brk = self.make_span("break", "");
        self.spans.push(brk);
        proof {
            assert(brk@ == mk_span(old(self)@, "break"@, seq![]));
            assert(self@.spans =~= old(self)@.spans.push(brk@));
            assert(self@.plain == old(self)@.plain.push('\n'));
            assert(self@.markdown == old(self)@.markdown + markdown_break@);
            assert(self@.links == old(self)@.links);
            assert(self@.images == old(self)@.images);
        }
    }

    pub fn push_space(&mut self)
        ensures
            final(self)@ == acc_push_space(old(self)@),
    {
        string_push(&mut self.plain, ' ');
        string_push(&mut self.markdown, ' ');
        proof {
            reveal_strlit(" ");
            assert(self@.plain == old(self)@.plain.push(' '));
            assert(self@.markdown == old(self)@.markdown.push(' '));
            assert(self@.spans == old(self)@.spans);
            assert(self@.links == old(self)@.links);
            assert(self@.strong == old(self)@.strong);
            assert(" "@ == seq![' ']);
        }
        self.push_span("text", " ");
    }

    pub fn start_tag(&mut self, tag: &MdTag)
        requires
            acc_depth_ok(old(self)@),
        ensures
            final(self)@ == acc_start_tag(old(self)@, *tag),
    {
        match tag {
            MdTag::Emphasis => {
                self.emphasis_depth += 1;
                string_push(&mut self.markdown, '*');
            },
            MdTag::Strong => {
                self.strong_depth += 1;
                string_push_str(&mut self.markdown, "**");
            },
            MdTag::Strikethrough => {
                string_push_str(&mut self.markdown, "~~");
            },
            MdTag::Link(dest) => {
                string_push(&mut self.markdown, '[');
                self.link_stack.push(dest.clone());
                assert(self@.links =~= old(self)@.links.push(dest@));
            },
            MdTag::Image(dest) => {
                string_push_str(&mut self.markdown, "![");
                self.image_stack.push(dest.clone());
                assert(self@.images =~= old(self)@.images.push(dest@));
            },
            _ => {},
        }
    }

    fn close_link(markdown: &mut String, stack: &mut Vec<String>)
        ensures
            final(markdown)@ == old(markdown)@ + link_close(last_or_empty(strings_view(old(stack)@))),
            strings_view(final(stack)@) == drop_last_or_empty(strings_view(old(stack)@)),
    {
        let dest = match stack.pop() {
            Some(d) => d,
            None => String::new(),
        };
        proof {
            if old(stack)@.len() > 0 {
                assert(strings_view(stack@) =~= strings_view(old(stack)@).drop_last());
            }
        }
        string_push_str(markdown, "](");
        let esc = escape_link_destination(dest.as_str());
        string_push_str(markdown, esc.as_str());
        string_push(markdown, ')');
        assert(markdown@ =~= old(markdown)@ + link_close(last_or_empty(strings_view(old(stack)@))));
    }

    pub fn end_tag(&mut self, tag: &MdTagEnd)
        ensures
            final(self)@ == acc_end_tag(old(self)@, *tag),
    {
        match tag {
            MdTagEnd::Emphasis => {
                self.emphasis_depth = self.emphasis_depth.saturating_sub(1);
                string_push(&mut self.markdown, '*');
            },
            MdTagEnd::Strong => {
                self.strong_depth = self.strong_depth.saturating_sub(1);
                string_push_str(&mut self.markdown, "**");
            },
            MdTagEnd::Strikethrough => {
                string_push_str(&mut self.markdown, "~~");
            },
            MdTagEnd::Link => {
                Self::close_link(&mut self.markdown, &mut self.link_stack);
            },
            MdTagEnd::Image => {
                Self::close_link(&mut self.markdown, &mut self.image_stack);
            },
            _ => {},
        }
    }

    pub fn trimmed_spans(self) -> (r: Vec<ParsedInlineSpan>)
        ensures
            spans_view(r@) == acc_trimmed_spans(self@),
    {
        let mut spans = self.spans;
        trim_trailing_inline_spans(&mut spans);
        spans
    }
}

} // verus!
