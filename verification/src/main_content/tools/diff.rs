//! Diff previews for the file-editing tools.
//!
//! Parses tool arguments into the lines shown in a tool card, with the
//! number of lines added and removed.

use crate::main_content::markdown::{resp_view, ParsedMarkdownItem, RespView};
use crate::main_content::tools::json::{
    args_member, args_member_of, parse_tool_args_to_value, tool_args, JsonMember, MemberView,
};
use crate::text::{
    all_ws, chars_of, is_all_ws, owned, slice_chars, split_chars, split_on, starts_with, str_eq,
    string_of, vv,
};
use vstd::prelude::*;

verus! {

/// Represents a single line in a unified diff viewport.
#[derive(Debug, Clone, PartialEq, Eq)]
pub struct ParsedDiffLine {
    /// The style classification: "added", "removed", or "context".
    pub kind: String,
    /// The clean text payload (excluding unified diff prefixes).
    pub text: String,
}

/// The value of a [`ParsedDiffLine`]: (kind, text).
pub open spec fn diff_line_view(d: ParsedDiffLine) -> (Seq<char>, Seq<char>) {
    (d.kind@, d.text@)
}

pub open spec fn diff_lines_view(v: Seq<ParsedDiffLine>) -> Seq<(Seq<char>, Seq<char>)> {
    v.map_values(|d: ParsedDiffLine| diff_line_view(d))
}

impl ParsedDiffLine {
    pub fn copy(&self) -> (r: Self)
        ensures
            diff_line_view(r) == diff_line_view(*self),
    {
        ParsedDiffLine { kind: self.kind.clone(), text: self.text.clone() }
    }
}

pub fn copy_diff_lines(v: &Vec<ParsedDiffLine>) -> (r: Vec<ParsedDiffLine>)
    ensures
        diff_lines_view(r@) == diff_lines_view(v@),
{
    let mut r: Vec<ParsedDiffLine> = Vec::new();
    let mut i: usize = 0;
    while i < v.len()
        invariant
            i <= v.len(),
            r@.len() == i,
            forall|k: int| 0 <= k < i ==> diff_line_view(#[trigger] r@[k]) == diff_line_view(v@[k]),
        decreases v.len() - i,
    {
        r.push(v[i].copy());
        i += 1;
    }
    assert(diff_lines_view(r@) =~= diff_lines_view(v@));
    r
}

/// A member's text, empty when it is missing or not a string.
pub open spec fn member_text(m: MemberView) -> Seq<char> {
    match m {
        MemberView::Text(s) => s,
        _ => seq![],
    }
}

/// The first of two members that is present.
pub open spec fn first_present(a: MemberView, b: MemberView) -> MemberView {
    match a {
        MemberView::Missing => b,
        _ => a,
    }
}

/// The line a unified-diff line shows: hunk headers and blank lines are
/// dropped, `+`, `-` and ` ` lines lose their prefix.
pub open spec fn edit_line(line: Seq<char>) -> Option<(Seq<char>, Seq<char>)> {
    if starts_with(line, "@@"@) {
        None
    } else if line.len() > 0 && line[0] == '+' {
        Some(("added"@, line.skip(1)))
    } else if line.len() > 0 && line[0] == '-' {
        Some(("removed"@, line.skip(1)))
    } else if line.len() > 0 && line[0] == ' ' {
        Some(("context"@, line.skip(1)))
    } else if !all_ws(line) {
        Some(("context"@, line))
    } else {
        None
    }
}

pub open spec fn edit_lines(lines: Seq<Seq<char>>) -> Seq<(Seq<char>, Seq<char>)>
    decreases lines.len(),
{
    if lines.len() == 0 {
        seq![]
    } else {
        let rest = edit_lines(lines.drop_last());
        match edit_line(lines.last()) {
            Some(d) => rest.push(d),
            None => rest,
        }
    }
}

/// How many of the lines are of `kind`.
pub open spec fn count_kind(ls: Seq<(Seq<char>, Seq<char>)>, kind: Seq<char>) -> nat
    decreases ls.len(),
{
    if ls.len() == 0 {
        0
    } else if ls.last().0 == kind {
        count_kind(ls.drop_last(), kind) + 1
    } else {
        count_kind(ls.drop_last(), kind)
    }
}

pub proof fn lemma_count_kind_push(ls: Seq<(Seq<char>, Seq<char>)>, x: (Seq<char>, Seq<char>), kind: Seq<char>)
    ensures
        count_kind(ls.push(x), kind) == count_kind(ls, kind) + if x.0 == kind {
            1nat
        } else {
            0nat
        },
{
    assert(ls.push(x).drop_last() =~= ls);
}

pub open spec fn added_lines(ls: Seq<Seq<char>>) -> Seq<(Seq<char>, Seq<char>)> {
    ls.map_values(|l: Seq<char>| ("added"@, l))
}

/// The diff a tool call shows: a whole new body for `write` and `append`,
/// the unified diff in `__body__` for `edit`, nothing for other tools;
/// with the counts of added and removed lines.
pub open spec fn diff_of(tool_name: Seq<char>, args: Seq<char>) -> (
    Seq<(Seq<char>, Seq<char>)>,
    i32,
    i32,
) {
    let val = tool_args(args);
    if tool_name == "write"@ || tool_name == "append"@ {
        let body = member_text(
            first_present(args_member(val, "__body__"@), args_member(val, "content"@)),
        );
        if body.len() == 0 {
            (seq![], 0, 0)
        } else {
            let ls = split_on(body, '\n');
            (added_lines(ls), ls.len() as i32, 0)
        }
    } else if tool_name == "edit"@ {
        let body = member_text(args_member(val, "__body__"@));
        if body.len() == 0 {
            (seq![], 0, 0)
        } else {
            let d = edit_lines(split_on(body, '\n'));
            (d, count_kind(d, "added"@) as i32, count_kind(d, "removed"@) as i32)
        }
    } else {
        (seq![], 0, 0)
    }
}

/// The body a `write` or `append` call writes: its `__body__` member, else
/// its `content` member, as text.
pub open spec fn written_body(args: Seq<char>) -> Seq<char> {
    member_text(
        first_present(
            args_member(tool_args(args), "__body__"@),
            args_member(tool_args(args), "content"@),
        ),
    )
}

/// An `append` shows the same diff as a `write` of the same body.
pub proof fn lemma_append_diffs_like_write(args: Seq<char>)
    ensures
        diff_of("append"@, args) == diff_of("write"@, args),
{
}

/// A `write` or an `append` shows every line of its body, in order, as an
/// added line, counts them all as added and none as removed; an empty body
/// shows nothing.
pub proof fn lemma_written_body_all_added(tool_name: Seq<char>, args: Seq<char>)
    requires
        tool_name == "write"@ || tool_name == "append"@,
    ensures
        ({
            let (d, added, removed) = diff_of(tool_name, args);
            let body = written_body(args);
            let ls = split_on(body, '\n');
            &&& removed == 0
            &&& body.len() == 0 ==> d.len() == 0 && added == 0
            &&& body.len() > 0 ==> {
                &&& d.len() == ls.len()
                &&& added == ls.len() as i32
                &&& forall|i: int| 0 <= i < d.len() ==> #[trigger] d[i] == ("added"@, ls[i])
            }
        }),
{
}

/// Only `write`, `append` and `edit` show a diff.
pub proof fn lemma_other_tools_no_diff(tool_name: Seq<char>, args: Seq<char>)
    requires
        tool_name != "write"@ && tool_name != "append"@ && tool_name != "edit"@,
    ensures
        diff_of(tool_name, args) == (Seq::<(Seq<char>, Seq<char>)>::empty(), 0i32, 0i32),
{
}

/// How an `edit` reads a unified-diff line: `+` lines are added and `-`
/// lines removed, ` ` lines are context, each without its marker; hunk
/// headers (`@@`) and blank lines show nothing, any other line is context
/// as it stands.
pub proof fn lemma_edit_line_kinds(line: Seq<char>)
    ensures
        starts_with(line, "@@"@) ==> edit_line(line) is None,
        !starts_with(line, "@@"@) && line.len() > 0 && line[0] == '+' ==> edit_line(line) == Some(
            ("added"@, line.skip(1)),
        ),
        !starts_with(line, "@@"@) && line.len() > 0 && line[0] == '-' ==> edit_line(line) == Some(
            ("removed"@, line.skip(1)),
        ),
        !starts_with(line, "@@"@) && line.len() > 0 && line[0] == ' ' ==> edit_line(line) == Some(
            ("context"@, line.skip(1)),
        ),
        line.len() > 0 && line[0] != '+' && line[0] != '-' && line[0] != ' ' && line[0] != '@'
            && !all_ws(line) ==> edit_line(line) == Some(("context"@, line)),
        all_ws(line) && (line.len() == 0 || line[0] != ' ') ==> edit_line(line) is None,
{
    reveal_strlit("@@");
    if line.len() > 0 && line[0] != '@' {
        if line.len() >= 2 && line.take(2) == "@@"@ {
            assert(line.take(2)[0] == line[0]);
            assert("@@"@[0] == '@');
        }
    }
    if all_ws(line) && line.len() > 0 {
        assert(crate::text::is_ws(line[0]));
        if line.len() >= 2 && line.take(2) == "@@"@ {
            assert(line.take(2)[0] == line[0]);
            assert("@@"@[0] == '@');
        }
    }
}

/// An `edit` counts as added and removed exactly the lines it shows as
/// such, and shows nothing for an empty body.
pub proof fn lemma_edit_counts(args: Seq<char>)
    ensures
        ({
            let (d, added, removed) = diff_of("edit"@, args);
            &&& added == count_kind(d, "added"@) as i32
            &&& removed == count_kind(d, "removed"@) as i32
            &&& member_text(args_member(tool_args(args), "__body__"@)).len() == 0 ==> d.len() == 0
        }),
{
    reveal_strlit("edit");
    reveal_strlit("write");
    reveal_strlit("append");
    assert("edit"@.len() != "write"@.len() && "edit"@.len() != "append"@.len());
}

fn diff_line(kind: &str, text: Vec<char>) -> (r: ParsedDiffLine)
    ensures
        diff_line_view(r) == (kind@, text@),
{
    ParsedDiffLine { kind: owned(kind), text: string_of(text.as_slice()) }
}

fn member_string(m: JsonMember) -> (r: Vec<char>)
    ensures
        r@ == member_text(m@),
{
    match m {
        JsonMember::Text(s) => chars_of(s.as_str()),
        _ => Vec::new(),
    }
}

/// Parses tool arguments into diff lines and the counts of added and deleted lines.
pub fn parse_diff(tool_name: &str, args_json: &str) -> (r: (Vec<ParsedDiffLine>, i32, i32))
    ensures
        (diff_lines_view(r.0@), r.1, r.2) == diff_of(tool_name@, args_json@),
{
    let val = parse_tool_args_to_value(args_json);
    if str_eq(tool_name, "write") || str_eq(tool_name, "append") {
        let first = args_member_of(&val, "__body__");
        let m = match first {
            JsonMember::Missing => args_member_of(&val, "content"),
            other => other,
        };
        let body = member_string(m);
        if body.len() == 0 {
            let v: Vec<ParsedDiffLine> = Vec::new();
            assert(diff_lines_view(v@) =~= seq![]);
            return (v, 0, 0);
        }
        let ls = split_chars(&body, '\n');
        let ghost lv = vv(ls@);
        let mut out: Vec<ParsedDiffLine> = Vec::new();
        let mut i: usize = 0;
        while i < ls.len()
            invariant
                i <= ls.len(),
                lv == vv(ls@),
                diff_lines_view(out@) == added_lines(lv.take(i as int)),
            decreases ls.len() - i,
        {
            let line = slice_chars(&ls[i], 0, ls[i].len());
            assert(line@ =~= ls@[i as int]@);
            let d = diff_line("added", line);
            let ghost o0 = out@;
            out.push(d);
            proof {
                assert(ls@[i as int]@ == lv[i as int]);
                assert(lv.take(i + 1) =~= lv.take(i as int).push(lv[i as int]));
                assert(diff_lines_view(out@) =~= diff_lines_view(o0).push(("added"@, lv[i as int])));
                assert(added_lines(lv.take(i + 1)) =~= added_lines(lv.take(i as int)).push(
                    ("added"@, lv[i as int]),
                ));
            }
            i += 1;
        }
        assert(lv.take(ls.len() as int) =~= lv);
        (out, ls.len() as i32, 0)
    } else if str_eq(tool_name, "edit") {
        let body = member_string(args_member_of(&val, "__body__"));
        if body.len() == 0 {
            let v: Vec<ParsedDiffLine> = Vec::new();
            assert(diff_lines_view(v@) =~= seq![]);
            return (v, 0, 0);
        }
        let ls = split_chars(&body, '\n');
        let ghost lv = vv(ls@);
        let mut out: Vec<ParsedDiffLine> = Vec::new();
        let mut added: usize = 0;
        let mut deleted: usize = 0;
        let hunk = chars_of("@@");
        let mut i: usize = 0;
        while i < ls.len()
            invariant
                i <= ls.len(),
                lv == vv(ls@),
                hunk@ == "@@"@,
                diff_lines_view(out@) == edit_lines(lv.take(i as int)),
                added as nat == count_kind(edit_lines(lv.take(i as int)), "added"@),
                deleted as nat == count_kind(edit_lines(lv.take(i as int)), "removed"@),
                added <= i,
                deleted <= i,
            decreases ls.len() - i,
        {
            proof {
                assert(lv.take(i + 1).drop_last() =~= lv.take(i as int));
                assert(lv.take(i + 1).last() == ls@[i as int]@);
            }
            let line = &ls[i];
            let n = line.len();
            let ghost o0 = out@;
            proof {
                reveal_strlit("added");
                reveal_strlit("removed");
                reveal_strlit("context");
                assert("added"@ != "removed"@) by {
                    assert("added"@.len() != "removed"@.len());
                }
                assert("context"@ != "removed"@) by {
                    assert("context"@[0] != "removed"@[0]);
                }
                assert("context"@ != "added"@) by {
                    assert("context"@[0] != "added"@[0]);
                }
            }
            if crate::text::starts_with_chars(line, &hunk) {
            } else if n > 0 && line[0] == '+' {
                let t = slice_chars(line, 1, n);
                assert(t@ =~= line@.skip(1));
                out.push(diff_line("added", t));
                proof {
                    assert(diff_lines_view(out@) =~= diff_lines_view(o0).push(("added"@, t@)));
                    lemma_count_kind_push(diff_lines_view(o0), ("added"@, t@), "added"@);
                    lemma_count_kind_push(diff_lines_view(o0), ("added"@, t@), "removed"@);
                }
                added += 1;
            } else if n > 0 && line[0] == '-' {
                let t = slice_chars(line, 1, n);
                assert(t@ =~= line@.skip(1));
                out.push(diff_line("removed", t));
                proof {
                    assert(diff_lines_view(out@) =~= diff_lines_view(o0).push(("removed"@, t@)));
                    lemma_count_kind_push(diff_lines_view(o0), ("removed"@, t@), "added"@);
                    lemma_count_kind_push(diff_lines_view(o0), ("removed"@, t@), "removed"@);
                }
                deleted += 1;
            } else if n > 0 && line[0] == ' ' {
                let t = slice_chars(line, 1, n);
                assert(t@ =~= line@.skip(1));
                out.push(diff_line("context", t));
                proof {
                    assert(diff_lines_view(out@) =~= diff_lines_view(o0).push(("context"@, t@)));
                    lemma_count_kind_push(diff_lines_view(o0), ("context"@, t@), "added"@);
                    lemma_count_kind_push(diff_lines_view(o0), ("context"@, t@), "removed"@);
                }
            } else if !is_all_ws(line) {
                let t = slice_chars(line, 0, n);
                assert(t@ =~= line@);
                out.push(diff_line("context", t));
                proof {
                    assert(diff_lines_view(out@) =~= diff_lines_view(o0).push(("context"@, t@)));
                    lemma_count_kind_push(diff_lines_view(o0), ("context"@, t@), "added"@);
                    lemma_count_kind_push(diff_lines_view(o0), ("context"@, t@), "removed"@);
                }
            }
            i += 1;
        }
        assert(lv.take(ls.len() as int) =~= lv);
        (out, added as i32, deleted as i32)
    } else {
        let v: Vec<ParsedDiffLine> = Vec::new();
        assert(diff_lines_view(v@) =~= seq![]);
        (v, 0, 0)
    }
}

/// The card after a diff overlay: file-editing tools whose arguments yield
/// diff lines show them with their counts; anything else is unchanged.
pub open spec fn overlay(item: RespView, name: Seq<char>, args: Seq<char>) -> RespView {
    let (lines, added, deleted) = diff_of(name, args);
    if (name == "write"@ || name == "edit"@ || name == "append"@) && lines.len() > 0 {
        RespView {
            tool_is_diff: true,
            tool_diff_lines: lines,
            tool_added_count: added,
            tool_deleted_count: deleted,
            ..item
        }
    } else {
        item
    }
}

/// Attaches the diff lines and counts of a file-editing tool call to its card.
pub fn apply_diff_overlay(item: &mut ParsedMarkdownItem, name: &str, args_json: &str)
    ensures
        resp_view(*final(item)) == overlay(resp_view(*old(item)), name@, args_json@),
{
    if str_eq(name, "write") || str_eq(name, "edit") || str_eq(name, "append") {
        let (lines, added, deleted) = parse_diff(name, args_json);
        if lines.len() > 0 {
            item.tool_is_diff = true;
            item.tool_diff_lines = lines;
            item.tool_added_count = added;
            item.tool_deleted_count = deleted;
        }
    }
}

} // verus!
