//! Block-level helpers: code languages, SVG detection, math delimiters and
//! code highlighting.

use super::items::{code_lines_view, ParsedCodeLine, ParsedCodeToken};
use crate::text::{
    chars_of, contains, contains_chars, ends_with, ends_with_chars, find, find_chars, is_whitespace,
    is_ws, lower_chars, lower_seq, slice_chars, starts_with, starts_with_chars, string_of, trim,
    trim_chars, trim_start, trim_start_chars,
};
use syntect::easy::HighlightLines;
use syntect::highlighting::{Style, ThemeSet};
use syntect::parsing::SyntaxSet;
use syntect::util::LinesWithEndings;
use vstd::prelude::*;

verus! {

// ---------------------------------------------------------------------------
// Code block languages
// ---------------------------------------------------------------------------

/// Index of the first whitespace character of `s`, or its length.
pub open spec fn first_ws(s: Seq<char>) -> nat
    decreases s.len(),
{
    if s.len() == 0 {
        0
    } else if is_ws(s[0]) {
        0
    } else {
        1 + first_ws(s.drop_first())
    }
}

/// The first whitespace-separated word of `s` (`split_whitespace().next()`),
/// empty when there is none.
pub open spec fn first_word(s: Seq<char>) -> Seq<char> {
    let t = trim_start(s);
    t.take(first_ws(t) as int)
}

pub proof fn lemma_first_ws(s: Seq<char>, i: int)
    requires
        0 <= i <= s.len(),
        forall|j: int| 0 <= j < i ==> !is_ws(#[trigger] s[j]),
        i == s.len() || is_ws(s[i]),
    ensures
        first_ws(s) == i,
    decreases i,
{
    if i > 0 {
        assert(!is_ws(s[0]));
        lemma_first_ws(s.drop_first(), i - 1);
    }
}

/// The first whitespace-separated word of `v`.
pub fn primary_language_token(v: &Vec<char>) -> (r: Vec<char>)
    ensures
        r@ == first_word(v@),
{
    let t = trim_start_chars(v);
    let mut i: usize = 0;
    while i < t.len() && !is_whitespace(t[i])
        invariant
            i <= t.len(),
            forall|j: int| 0 <= j < i ==> !is_ws(#[trigger] t@[j]),
        decreases t.len() - i,
    {
        i += 1;
    }
    proof {
        lemma_first_ws(t@, i as int);
    }
    slice_chars(&t, 0, i)
}

pub open spec fn is_mermaid_lang(lang: Seq<char>) -> bool {
    lower_seq(lang) == "mermaid"@ || lower_seq(lang) == "mmd"@
}

pub fn is_mermaid_language(language: &Vec<char>) -> (r: bool)
    ensures
        r == is_mermaid_lang(language@),
{
    let l = lower_chars(language);
    let a = chars_of("mermaid");
    let b = chars_of("mmd");
    crate::text::eq_chars(&l, &a) || crate::text::eq_chars(&l, &b)
}

pub open spec fn is_svg_lang(lang: Seq<char>) -> bool {
    lower_seq(lang) == "svg"@ || lower_seq(lang) == "xml-svg"@ || lower_seq(lang)
        == "image/svg+xml"@
}

pub fn is_svg_language(language: &Vec<char>) -> (r: bool)
    ensures
        r == is_svg_lang(language@),
{
    let l = lower_chars(language);
    let a = chars_of("svg");
    let b = chars_of("xml-svg");
    let c = chars_of("image/svg+xml");
    crate::text::eq_chars(&l, &a) || crate::text::eq_chars(&l, &b) || crate::text::eq_chars(&l, &c)
}

// ---------------------------------------------------------------------------
// SVG detection
// ---------------------------------------------------------------------------

/// The trimmed source with a leading `<?xml ... ?>` declaration removed.
pub open spec fn svg_body(source: Seq<char>) -> Seq<char> {
    let t = trim(source);
    if starts_with(t, "<?xml"@) {
        match find(t, "?>"@) {
            Some(end) => trim_start(t.skip(end + 2)),
            None => t,
        }
    } else {
        t
    }
}

pub fn svg_source_without_xml_declaration(source: &str) -> (r: Vec<char>)
    ensures
        r@ == svg_body(source@),
{
    let v = chars_of(source);
    let t = trim_chars(&v);
    let decl = chars_of("<?xml");
    if starts_with_chars(&t, &decl) {
        let close = chars_of("?>");
        match find_chars(&t, &close) {
            Some(end) => {
                proof {
                    reveal_strlit("?>");
                    crate::text::lemma_find_some(t@, close@, end as int);
                    assert(close@.len() == 2);
                    assert(crate::text::occurs_at(t@, close@, end as int));
                    assert(end + close@.len() <= t@.len());
                    assert(end + close.len() <= t.len());
                }
                let start = end + close.len();
                let rest = slice_chars(&t, start, t.len());
                assert(rest@ =~= t@.skip(end + 2));
                trim_start_chars(&rest)
            },
            None => t,
        }
    } else {
        t
    }
}

/// An SVG element: starts with `<svg` and holds a closing `</svg>`.
pub open spec fn svg_like(source: Seq<char>) -> bool {
    let w = svg_body(source);
    starts_with(w, "<svg"@) && contains(w, "</svg>"@)
}

pub fn looks_like_svg(source: &str) -> (r: bool)
    ensures
        r == svg_like(source@),
{
    let w = svg_source_without_xml_declaration(source);
    let open = chars_of("<svg");
    let close = chars_of("</svg>");
    starts_with_chars(&w, &open) && contains_chars(&w, &close)
}

/// A whole SVG document: starts with `<svg` and ends with `</svg>`.
pub open spec fn svg_document(source: Seq<char>) -> bool {
    let w = svg_body(source);
    starts_with(w, "<svg"@) && ends_with(w, "</svg>"@)
}

pub fn is_standalone_svg_document(source: &str) -> (r: bool)
    ensures
        r == svg_document(source@),
{
    let w = svg_source_without_xml_declaration(source);
    let open = chars_of("<svg");
    let close = chars_of("</svg>");
    starts_with_chars(&w, &open) && ends_with_chars(&w, &close)
}

// ---------------------------------------------------------------------------
// Math delimiters
// ---------------------------------------------------------------------------

/// `str::replace`: every non-overlapping occurrence of `from`, scanning
/// left to right, replaced by `to`.
pub open spec fn replace_all(s: Seq<char>, from: Seq<char>, to: Seq<char>) -> Seq<char>
    recommends
        from.len() > 0,
    decreases s.len(),
{
    if s.len() == 0 || from.len() == 0 {
        s
    } else if starts_with(s, from) {
        to + replace_all(s.skip(from.len() as int), from, to)
    } else {
        seq![s[0]] + replace_all(s.drop_first(), from, to)
    }
}

pub fn replace_chars(s: &Vec<char>, from: &Vec<char>, to: &Vec<char>) -> (r: Vec<char>)
    requires
        from.len() > 0,
    ensures
        r@ == replace_all(s@, from@, to@),
{
    let mut out: Vec<char> = Vec::new();
    let mut i: usize = 0;
    assert(s@.skip(0) =~= s@);
    assert(out@ + replace_all(s@, from@, to@) =~= replace_all(s@, from@, to@));
    while i < s.len()
        invariant
            i <= s.len(),
            from@.len() > 0,
            out@ + replace_all(s@.skip(i as int), from@, to@) == replace_all(s@, from@, to@),
        decreases s.len() - i,
    {
        let ghost rest = s@.skip(i as int);
        if crate::text::occurs_at_exec(s, from, i) {
            proof {
                assert(s@.subrange(i as int, i + from@.len()) =~= rest.take(from@.len() as int));
                assert(rest.skip(from@.len() as int) =~= s@.skip(i + from@.len()));
            }
            crate::text::push_all(&mut out, to);
            i = i + from.len();
            proof {
                assert(out@ + replace_all(s@.skip(i as int), from@, to@) =~= replace_all(
                    s@,
                    from@,
                    to@,
                ));
            }
        } else {
            proof {
                if from@.len() <= rest.len() {
                    assert(s@.subrange(i as int, i + from@.len()) =~= rest.take(
                        from@.len() as int,
                    ));
                }
                assert(rest.drop_first() =~= s@.skip(i + 1));
            }
            out.push(s[i]);
            i = i + 1;
            proof {
                assert(out@ + replace_all(s@.skip(i as int), from@, to@) =~= replace_all(
                    s@,
                    from@,
                    to@,
                ));
            }
        }
    }
    assert(s@.skip(i as int) =~= Seq::<char>::empty());
    assert(out@ =~= out@ + Seq::<char>::empty());
    out
}

/// `\[ ... \]` and `\( ... \)` rewritten as `$$ ... $$` and `$ ... $`.
pub open spec fn preprocess(markdown: Seq<char>) -> Seq<char> {
    replace_all(
        replace_all(
            replace_all(replace_all(markdown, "\\["@, "$$"@), "\\]"@, "$$"@),
            "\\("@,
            "$"@,
        ),
        "\\)"@,
        "$"@,
    )
}

pub fn preprocess_markdown(markdown: &str) -> (r: String)
    ensures
        r@ == preprocess(markdown@),
{
    let v = chars_of(markdown);
    let a = chars_of("\\[");
    let b = chars_of("\\]");
    let c = chars_of("\\(");
    let d = chars_of("\\)");
    let dd = chars_of("$$");
    let sd = chars_of("$");
    proof {
        reveal_strlit("\\[");
        reveal_strlit("\\]");
        reveal_strlit("\\(");
        reveal_strlit("\\)");
    }
    let s1 = replace_chars(&v, &a, &dd);
    let s2 = replace_chars(&s1, &b, &dd);
    let s3 = replace_chars(&s2, &c, &sd);
    let s4 = replace_chars(&s3, &d, &sd);
    string_of(s4.as_slice())
}

// ---------------------------------------------------------------------------
// Highlighting
// ---------------------------------------------------------------------------

/// The name of the syntax syntect's default newline-aware set finds for
/// the token `token` (a file extension or a language name), if any.
pub uninterp spec fn syntax_for_token(token: Seq<char>) -> Option<Seq<char>>;

/// The name of the syntax of syntect's default newline-aware set called
/// `name`, if there is one.
pub uninterp spec fn syntax_named(name: Seq<char>) -> Option<Seq<char>>;

/// The name of the `i`-th syntax of syntect's default newline-aware set.
pub uninterp spec fn syntax_at(i: usize) -> Option<Seq<char>>;

/// What syntect's `HighlightLines` gives for each of `lines` in turn, with
/// the syntax named `syntax` of the default newline-aware set and the theme
/// named `theme` of the default themes: the coloured runs of a line, or
/// `None` where it fails on the line. Empty when either name is unknown.
pub uninterp spec fn syntect_line_results(syntax: Seq<char>, theme: Seq<char>, lines: Seq<Seq<char>>) -> Seq<
    Option<Seq<(Seq<char>, (u8, u8, u8, u8))>>,
>;

/// `SyntaxSet::load_defaults_newlines().find_syntax_by_token(token)`, by the
/// found syntax's name. Claimed: the result is `syntax_for_token(token)`.
#[verifier::external_body]
fn find_syntax_by_token(token: &str) -> (r: Option<String>)
    ensures
        r matches Some(n) ==> syntax_for_token(token@) == Some(n@),
        r is None ==> syntax_for_token(token@) is None,
{
    SyntaxSet::load_defaults_newlines().find_syntax_by_token(token).map(|s| s.name.clone())
}

/// `SyntaxSet::load_defaults_newlines().find_syntax_by_name(name)`, by the
/// found syntax's name. Claimed: the result is `syntax_named(name)`.
#[verifier::external_body]
fn find_syntax_by_name(name: &str) -> (r: Option<String>)
    ensures
        r matches Some(n) ==> syntax_named(name@) == Some(n@),
        r is None ==> syntax_named(name@) is None,
{
    SyntaxSet::load_defaults_newlines().find_syntax_by_name(name).map(|s| s.name.clone())
}

/// `SyntaxSet::load_defaults_newlines().syntaxes().get(i)`, by the syntax's
/// name. Claimed: the result is `syntax_at(i)`.
#[verifier::external_body]
fn syntax_name_at(i: usize) -> (r: Option<String>)
    ensures
        r matches Some(n) ==> syntax_at(i) == Some(n@),
        r is None ==> syntax_at(i) is None,
{
    SyntaxSet::load_defaults_newlines().syntaxes().get(i).map(|s| s.name.clone())
}

/// Highlights `lines` in turn with one `syntect::easy::HighlightLines` (it
/// carries parse state from line to line, so the lines go in one call),
/// for the syntax named `syntax` and the default theme named `theme`; a
/// line it fails on gives `None`. Claimed: one result per line, and the
/// results are `syntect_line_results(syntax, theme, lines)`.
#[verifier::external_body]
fn highlight_each_line(syntax: &str, theme: &str, lines: &Vec<String>) -> (r: Vec<Option<ParsedCodeLine>>)
    ensures
        opt_lines_view(r@) == syntect_line_results(syntax@, theme@, lines@.map_values(|l: String| l@)),
{
    let ss = SyntaxSet::load_defaults_newlines();
    let ts = ThemeSet::load_defaults();
    match (ss.find_syntax_by_name(syntax), ts.themes.get(theme)) {
        (Some(sy), Some(th)) => {
            let mut h = HighlightLines::new(sy, th);
            lines.iter().map(|l| h.highlight_line(l, &ss).ok().map(line_of)).collect()
        },
        _ => Vec::new(),
    }
}

pub open spec fn opt_lines_view(v: Seq<Option<ParsedCodeLine>>) -> Seq<
    Option<Seq<(Seq<char>, (u8, u8, u8, u8))>>,
> {
    v.map_values(
        |o: Option<ParsedCodeLine>|
            match o {
                Some(l) => Some(super::items::line_view(l)),
                None => None,
            },
    )
}

/// `syntect::util::LinesWithEndings`: the text cut after each line feed,
/// each line keeping it; a last line without one counts when not empty.
pub open spec fn lines_with_endings(s: Seq<char>) -> Seq<Seq<char>> {
    let (done, cur) = line_fold(s);
    if cur.len() > 0 {
        done.push(cur)
    } else {
        done
    }
}

/// (the lines ended so far, the line being read).
pub open spec fn line_fold(s: Seq<char>) -> (Seq<Seq<char>>, Seq<char>)
    decreases s.len(),
{
    if s.len() == 0 {
        (seq![], seq![])
    } else {
        let (done, cur) = line_fold(s.drop_last());
        if s.last() == '\n' {
            (done.push(cur.push('\n')), seq![])
        } else {
            (done, cur.push(s.last()))
        }
    }
}

fn lines_with_endings_of(code: &str) -> (r: Vec<String>)
    ensures
        r@.map_values(|l: String| l@) == lines_with_endings(code@),
{
    let v = chars_of(code);
    let mut out: Vec<String> = Vec::new();
    let mut cur: Vec<char> = Vec::new();
    let mut i: usize = 0;
    while i < v.len()
        invariant
            i <= v.len(),
            (out@.map_values(|l: String| l@), cur@) == line_fold(v@.take(i as int)),
        decreases v.len() - i,
    {
        assert(v@.take(i + 1).drop_last() =~= v@.take(i as int));
        let ghost o0 = out@.map_values(|l: String| l@);
        cur.push(v[i]);
        if v[i] == '\n' {
            let l = string_of(cur.as_slice());
            out.push(l);
            cur = Vec::new();
            assert(out@.map_values(|l: String| l@) =~= o0.push(line_fold(v@.take(i as int)).1.push('\n')));
        }
        i += 1;
    }
    assert(v@.take(v.len() as int) =~= v@);
    if cur.len() > 0 {
        let ghost o0 = out@.map_values(|l: String| l@);
        let l = string_of(cur.as_slice());
        out.push(l);
        assert(out@.map_values(|l: String| l@) =~= o0.push(cur@));
    }
    out
}

/// The syntax for the token `lang`: found by the token, else plain text,
/// else the first syntax of the set.
pub open spec fn chosen_syntax(lang: Seq<char>) -> Option<Seq<char>> {
    match syntax_for_token(lang) {
        Some(n) => Some(n),
        None => match syntax_named("Plain Text"@) {
            Some(n) => Some(n),
            None => syntax_at(0),
        },
    }
}

/// The lines that highlighted, in order; failed lines are dropped.
pub open spec fn highlighted_only(rs: Seq<Option<Seq<(Seq<char>, (u8, u8, u8, u8))>>>) -> Seq<
    Seq<(Seq<char>, (u8, u8, u8, u8))>,
>
    decreases rs.len(),
{
    if rs.len() == 0 {
        seq![]
    } else {
        let front = highlighted_only(rs.drop_last());
        match rs.last() {
            Some(l) => front.push(l),
            None => front,
        }
    }
}

/// The theme code is highlighted with.
pub open spec fn code_theme() -> Seq<char> {
    "base16-ocean.dark"@
}

/// The coloured lines of `code` in the language `lang`, runs keeping their
/// line endings: nothing when the set has no syntax at all.
pub open spec fn syntect_highlight(code: Seq<char>, lang: Seq<char>) -> Seq<
    Seq<(Seq<char>, (u8, u8, u8, u8))>,
> {
    match chosen_syntax(lang) {
        Some(syntax) => highlighted_only(
            syntect_line_results(syntax, code_theme(), lines_with_endings(code)),
        ),
        None => seq![],
    }
}

fn choose_syntax(lang: &str) -> (r: Option<String>)
    ensures
        match r {
            Some(n) => chosen_syntax(lang@) == Some(n@),
            None => chosen_syntax(lang@) is None,
        },
{
    match find_syntax_by_token(lang) {
        Some(n) => Some(n),
        None => {
            proof {
                reveal_strlit("Plain Text");
            }
            match find_syntax_by_name("Plain Text") {
                Some(n) => Some(n),
                None => syntax_name_at(0),
            }
        },
    }
}

/// Highlights `code` by lines with the syntax for `lang` and the theme of
/// [`code_theme`], dropping the lines syntect fails on.
fn syntect_lines(code: &str, lang: &str) -> (lines: Vec<ParsedCodeLine>)
    ensures
        code_lines_view(lines@) == syntect_highlight(code@, lang@),
{
    match choose_syntax(lang) {
        None => {
            let v: Vec<ParsedCodeLine> = Vec::new();
            assert(code_lines_view(v@) =~= seq![]);
            v
        },
        Some(syntax) => {
            let lines = lines_with_endings_of(code);
            let theme = crate::text::owned("base16-ocean.dark");
            let mut results = highlight_each_line(syntax.as_str(), theme.as_str(), &lines);
            let ghost rv = opt_lines_view(results@);
            let mut out: Vec<ParsedCodeLine> = Vec::new();
            let ghost mut i: int = 0;
            assert(code_lines_view(out@) =~= highlighted_only(rv.take(0)));
            assert(opt_lines_view(results@) =~= rv.skip(0));
            while results.len() > 0
                invariant
                    0 <= i <= rv.len(),
                    opt_lines_view(results@) == rv.skip(i),
                    code_lines_view(out@) == highlighted_only(rv.take(i)),
                decreases results.len(),
            {
                let ghost r0 = results@;
                let o = results.remove(0);
                assert(opt_lines_view(results@) =~= opt_lines_view(r0).drop_first());
                assert(opt_lines_view(r0)[0] == rv[i]);
                assert(rv.take(i + 1).drop_last() =~= rv.take(i));
                assert(rv.skip(i).drop_first() =~= rv.skip(i + 1));
                let ghost o0 = code_lines_view(out@);
                match o {
                    Some(l) => {
                        out.push(l);
                        assert(code_lines_view(out@) =~= o0.push(super::items::line_view(l)));
                    },
                    None => {},
                }
                proof {
                    i = i + 1;
                }
            }
            assert(rv.take(i) =~= rv);
            out
        },
    }
}

/// `syntect::highlighting::Style`, carried opaquely into the converter below.
#[verifier::external_type_specification]
#[verifier::external_body]
pub struct ExSyntectStyle(Style);

/// Converts syntect's styled runs of one line, each with its foreground
/// colour as (alpha, red, green, blue).
#[verifier::external_body]
fn line_of(runs: Vec<(Style, &str)>) -> ParsedCodeLine {
    ParsedCodeLine {
        tokens: runs.into_iter().map(|(st, t)| ParsedCodeToken {
            text: t.to_string(),
            color: (st.foreground.a, st.foreground.r, st.foreground.g, st.foreground.b),
        }).collect(),
    }
}

/// A run's text without one trailing newline and then one trailing carriage return.
pub open spec fn clean_run(t: Seq<char>) -> Seq<char> {
    let t1 = if t.len() > 0 && t.last() == '\n' {
        t.drop_last()
    } else {
        t
    };
    if t1.len() > 0 && t1.last() == '\r' {
        t1.drop_last()
    } else {
        t1
    }
}

pub open spec fn clean_lines(
    lines: Seq<Seq<(Seq<char>, (u8, u8, u8, u8))>>,
) -> Seq<Seq<(Seq<char>, (u8, u8, u8, u8))>> {
    lines.map_values(
        |l: Seq<(Seq<char>, (u8, u8, u8, u8))>|
            l.map_values(|t: (Seq<char>, (u8, u8, u8, u8))| (clean_run(t.0), t.1)),
    )
}

fn clean_token(t: &ParsedCodeToken) -> (r: ParsedCodeToken)
    ensures
        r.text@ == clean_run(t.text@),
        r.color == t.color,
{
    let v = chars_of(t.text.as_str());
    let n = v.len();
    let n1 = if n > 0 && v[n - 1] == '\n' {
        n - 1
    } else {
        n
    };
    let n2 = if n1 > 0 && v[n1 - 1] == '\r' {
        n1 - 1
    } else {
        n1
    };
    let s = slice_chars(&v, 0, n2);
    proof {
        let t1 = if v@.len() > 0 && v@.last() == '\n' {
            v@.drop_last()
        } else {
            v@
        };
        assert(t1 =~= v@.take(n1 as int));
        assert(s@ =~= clean_run(v@));
    }
    ParsedCodeToken { text: string_of(s.as_slice()), color: t.color }
}

/// Highlights `code_text` for the language token `lang`, each run losing
/// its line ending.
pub fn highlight_code_sendable(code_text: &str, lang: &str) -> (r: Vec<ParsedCodeLine>)
    ensures
        code_lines_view(r@) == clean_lines(syntect_highlight(code_text@, lang@)),
{
    let raw = syntect_lines(code_text, lang);
    let ghost rv = code_lines_view(raw@);
    let mut out: Vec<ParsedCodeLine> = Vec::new();
    let mut i: usize = 0;
    while i < raw.len()
        invariant
            i <= raw.len(),
            rv == code_lines_view(raw@),
            out@.len() == i,
            forall|k: int| 0 <= k < i ==> #[trigger] code_lines_view(out@)[k] == clean_lines(rv)[k],
        decreases raw.len() - i,
    {
        let line = &raw[i];
        let mut toks: Vec<ParsedCodeToken> = Vec::new();
        let mut j: usize = 0;
        while j < line.tokens.len()
            invariant
                j <= line.tokens.len(),
                toks@.len() == j,
                forall|k: int|
                    0 <= k < j ==> #[trigger] super::items::token_view(toks@[k]) == (
                        clean_run(line.tokens@[k].text@),
                        line.tokens@[k].color,
                    ),
            decreases line.tokens.len() - j,
        {
            toks.push(clean_token(&line.tokens[j]));
            j += 1;
        }
        let ghost o0 = out@;
        out.push(ParsedCodeLine { tokens: toks });
        proof {
            assert(rv[i as int] == super::items::line_view(*line));
            assert(super::items::line_view(out@[i as int]) =~= clean_lines(rv)[i as int]);
            assert forall|k: int| 0 <= k < i + 1 implies #[trigger] code_lines_view(out@)[k]
                == clean_lines(rv)[k] by {
                assert(code_lines_view(out@)[k] == super::items::line_view(out@[k]));
                if k < i {
                    assert(out@[k] == o0[k]);
                    assert(code_lines_view(o0)[k] == super::items::line_view(o0[k]));
                }
            }
        }
        i += 1;
    }
    assert(code_lines_view(out@) =~= clean_lines(rv));
    out
}

} // verus!
