//! The blocks of a streamed assistant turn: response text, thinking cards,
//! tool cards, activity groups and permission prompts.

use crate::main_content::reasoning::{build_work_summary, work_summary};
use crate::main_content::tools::diff::{copy_diff_lines, diff_lines_view, ParsedDiffLine};
use crate::text::{all_ws, is_blank, owned, str_eq};
use vstd::prelude::*;
pub use crate::main_content::block_markdown::{parse_markdown, BlockKind, MarkdownBlock};

verus! {

/// One block of an assistant turn, or one entry of an activity group.
#[derive(Debug)]
pub struct ParsedMarkdownItem {
    /// "text", "thinking", "tool", "work_group" or "permission".
    pub kind: String,
    pub text: String,
    pub rich_text: String,
    pub level: i32,
    pub is_ordered: bool,
    pub prefix: String,
    pub is_task: bool,
    pub is_checked: bool,
    pub depth: i32,
    pub language: String,
    // Thinking card
    pub thinking_text: String,
    pub is_thinking_active: bool,
    // Tool card
    pub tool_name: String,
    pub tool_title: String,
    pub tool_args: String,
    pub tool_result: String,
    pub tool_status: String,
    pub tool_call_id: String,
    pub item_expanded: bool,
    pub tool_is_diff: bool,
    pub tool_diff_lines: Vec<ParsedDiffLine>,
    pub tool_added_count: i32,
    pub tool_deleted_count: i32,
    // Activity group
    pub work_group_items: Vec<ParsedMarkdownItem>,
    pub work_group_active: bool,
    pub work_group_elapsed_secs: i32,
    pub work_group_expanded: bool,
    pub work_group_summary: String,
    // Permission prompt
    pub permission_id: String,
    pub permission_tool: String,
    pub permission_path: String,
    pub permission_reason: String,
    pub permission_args: String,
    pub permission_status: String,
}

/// The value of a [`ParsedMarkdownItem`].
pub struct RespView {
    pub kind: Seq<char>,
    pub text: Seq<char>,
    pub rich_text: Seq<char>,
    pub level: i32,
    pub is_ordered: bool,
    pub prefix: Seq<char>,
    pub is_task: bool,
    pub is_checked: bool,
    pub depth: i32,
    pub language: Seq<char>,
    pub thinking_text: Seq<char>,
    pub is_thinking_active: bool,
    pub tool_name: Seq<char>,
    pub tool_title: Seq<char>,
    pub tool_args: Seq<char>,
    pub tool_result: Seq<char>,
    pub tool_status: Seq<char>,
    pub tool_call_id: Seq<char>,
    pub item_expanded: bool,
    pub tool_is_diff: bool,
    pub tool_diff_lines: Seq<(Seq<char>, Seq<char>)>,
    pub tool_added_count: i32,
    pub tool_deleted_count: i32,
    pub work_group_items: Seq<RespView>,
    pub work_group_active: bool,
    pub work_group_elapsed_secs: i32,
    pub work_group_expanded: bool,
    pub work_group_summary: Seq<char>,
    pub permission_id: Seq<char>,
    pub permission_tool: Seq<char>,
    pub permission_path: Seq<char>,
    pub permission_reason: Seq<char>,
    pub permission_args: Seq<char>,
    pub permission_status: Seq<char>,
}

pub open spec fn resp_view(x: ParsedMarkdownItem) -> RespView
    decreases x,
{
    RespView {
        kind: x.kind@,
        text: x.text@,
        rich_text: x.rich_text@,
        level: x.level,
        is_ordered: x.is_ordered,
        prefix: x.prefix@,
        is_task: x.is_task,
        is_checked: x.is_checked,
        depth: x.depth,
        language: x.language@,
        thinking_text: x.thinking_text@,
        is_thinking_active: x.is_thinking_active,
        tool_name: x.tool_name@,
        tool_title: x.tool_title@,
        tool_args: x.tool_args@,
        tool_result: x.tool_result@,
        tool_status: x.tool_status@,
        tool_call_id: x.tool_call_id@,
        item_expanded: x.item_expanded,
        tool_is_diff: x.tool_is_diff,
        tool_diff_lines: diff_lines_view(x.tool_diff_lines@),
        tool_added_count: x.tool_added_count,
        tool_deleted_count: x.tool_deleted_count,
        work_group_items: resp_views(x.work_group_items@),
        work_group_active: x.work_group_active,
        work_group_elapsed_secs: x.work_group_elapsed_secs,
        work_group_expanded: x.work_group_expanded,
        work_group_summary: x.work_group_summary@,
        permission_id: x.permission_id@,
        permission_tool: x.permission_tool@,
        permission_path: x.permission_path@,
        permission_reason: x.permission_reason@,
        permission_args: x.permission_args@,
        permission_status: x.permission_status@,
    }
}

pub open spec fn resp_views(s: Seq<ParsedMarkdownItem>) -> Seq<RespView>
    decreases s,
{
    if s.len() == 0 {
        seq![]
    } else {
        resp_views(s.drop_last()).push(resp_view(s.last()))
    }
}

pub proof fn lemma_resp_views_len(s: Seq<ParsedMarkdownItem>)
    ensures
        resp_views(s).len() == s.len(),
    decreases s.len(),
{
    if s.len() > 0 {
        lemma_resp_views_len(s.drop_last());
    }
}

pub proof fn lemma_resp_views_index(s: Seq<ParsedMarkdownItem>, i: int)
    requires
        0 <= i < s.len(),
    ensures
        resp_views(s)[i] == resp_view(s[i]),
    decreases s.len(),
{
    lemma_resp_views_len(s.drop_last());
    if i < s.len() - 1 {
        lemma_resp_views_index(s.drop_last(), i);
    }
}

pub proof fn lemma_resp_views_push(s: Seq<ParsedMarkdownItem>, x: ParsedMarkdownItem)
    ensures
        resp_views(s.push(x)) == resp_views(s).push(resp_view(x)),
{
    assert(s.push(x).drop_last() =~= s);
}

/// Items with equal values have equal views.
pub proof fn lemma_resp_views_ext(a: Seq<ParsedMarkdownItem>, b: Seq<ParsedMarkdownItem>)
    requires
        a.len() == b.len(),
        forall|i: int| 0 <= i < a.len() ==> resp_view(#[trigger] a[i]) == resp_view(b[i]),
    ensures
        resp_views(a) == resp_views(b),
    decreases a.len(),
{
    if a.len() > 0 {
        lemma_resp_views_ext(a.drop_last(), b.drop_last());
    }
}

/// `s` with its item `i` replaced by `x`.
pub proof fn lemma_resp_views_update(s: Seq<ParsedMarkdownItem>, i: int, x: ParsedMarkdownItem)
    requires
        0 <= i < s.len(),
    ensures
        resp_views(s.update(i, x)) == resp_views(s).update(i, resp_view(x)),
{
    lemma_resp_views_len(s);
    lemma_resp_views_len(s.update(i, x));
    assert forall|k: int| 0 <= k < s.len() implies #[trigger] resp_views(s.update(i, x))[k]
        == resp_views(s).update(i, resp_view(x))[k] by {
        lemma_resp_views_index(s.update(i, x), k);
        lemma_resp_views_index(s, k);
    }
    assert(resp_views(s.update(i, x)) =~= resp_views(s).update(i, resp_view(x)));
}

/// A block of `kind` holding `text`, every other field empty.
pub open spec fn resp_default(kind: Seq<char>, text: Seq<char>) -> RespView {
    RespView {
        kind,
        text,
        rich_text: seq![],
        level: 0,
        is_ordered: false,
        prefix: seq![],
        is_task: false,
        is_checked: false,
        depth: 0,
        language: seq![],
        thinking_text: seq![],
        is_thinking_active: false,
        tool_name: seq![],
        tool_title: seq![],
        tool_args: seq![],
        tool_result: seq![],
        tool_status: seq![],
        tool_call_id: seq![],
        item_expanded: false,
        tool_is_diff: false,
        tool_diff_lines: seq![],
        tool_added_count: 0,
        tool_deleted_count: 0,
        work_group_items: seq![],
        work_group_active: false,
        work_group_elapsed_secs: 0,
        work_group_expanded: false,
        work_group_summary: seq![],
        permission_id: seq![],
        permission_tool: seq![],
        permission_path: seq![],
        permission_reason: seq![],
        permission_args: seq![],
        permission_status: seq![],
    }
}

impl ParsedMarkdownItem {
    /// A block of `kind` holding `text`, every other field empty.
    pub fn new_default(kind: String, text: String) -> (r: Self)
        ensures
            resp_view(r) == resp_default(kind@, text@),
    {
        let r = ParsedMarkdownItem {
            kind,
            text,
            rich_text: String::new(),
            level: 0,
            is_ordered: false,
            prefix: String::new(),
            is_task: false,
            is_checked: false,
            depth: 0,
            language: String::new(),
            thinking_text: String::new(),
            is_thinking_active: false,
            tool_name: String::new(),
            tool_title: String::new(),
            tool_args: String::new(),
            tool_result: String::new(),
            tool_status: String::new(),
            tool_call_id: String::new(),
            item_expanded: false,
            tool_is_diff: false,
            tool_diff_lines: Vec::new(),
            tool_added_count: 0,
            tool_deleted_count: 0,
            work_group_items: Vec::new(),
            work_group_active: false,
            work_group_elapsed_secs: 0,
            work_group_expanded: false,
            work_group_summary: String::new(),
            permission_id: String::new(),
            permission_tool: String::new(),
            permission_path: String::new(),
            permission_reason: String::new(),
            permission_args: String::new(),
            permission_status: String::new(),
        };
        proof {
            reveal_strlit("");
            assert(""@ =~= Seq::<char>::empty());
            assert(diff_lines_view(r.tool_diff_lines@) =~= seq![]);
            assert(resp_views(r.work_group_items@) =~= seq![]);
        }
        r
    }

    /// A deep copy.
    pub fn copy(&self) -> (r: Self)
        ensures
            resp_view(r) == resp_view(*self),
        decreases self,
    {
        let mut items: Vec<ParsedMarkdownItem> = Vec::new();
        let mut i: usize = 0;
        while i < self.work_group_items.len()
            invariant
                i <= self.work_group_items.len(),
                resp_views(items@) == resp_views(self.work_group_items@.take(i as int)),
            decreases self.work_group_items.len() - i,
        {
            proof {
                assert(self.work_group_items@.take(i + 1).drop_last() =~= self.work_group_items@.take(
                    i as int,
                ));
                assert(self.work_group_items@.take(i + 1).last() == self.work_group_items@[i as int]);
            }
            let c = self.work_group_items[i].copy();
            proof {
                lemma_resp_views_push(items@, c);
            }
            items.push(c);
            i += 1;
        }
        assert(self.work_group_items@.take(self.work_group_items.len() as int)
            =~= self.work_group_items@);
        ParsedMarkdownItem {
            kind: self.kind.clone(),
            text: self.text.clone(),
            rich_text: self.rich_text.clone(),
            level: self.level,
            is_ordered: self.is_ordered,
            prefix: self.prefix.clone(),
            is_task: self.is_task,
            is_checked: self.is_checked,
            depth: self.depth,
            language: self.language.clone(),
            thinking_text: self.thinking_text.clone(),
            is_thinking_active: self.is_thinking_active,
            tool_name: self.tool_name.clone(),
            tool_title: self.tool_title.clone(),
            tool_args: self.tool_args.clone(),
            tool_result: self.tool_result.clone(),
            tool_status: self.tool_status.clone(),
            tool_call_id: self.tool_call_id.clone(),
            item_expanded: self.item_expanded,
            tool_is_diff: self.tool_is_diff,
            tool_diff_lines: copy_diff_lines(&self.tool_diff_lines),
            tool_added_count: self.tool_added_count,
            tool_deleted_count: self.tool_deleted_count,
            work_group_items: items,
            work_group_active: self.work_group_active,
            work_group_elapsed_secs: self.work_group_elapsed_secs,
            work_group_expanded: self.work_group_expanded,
            work_group_summary: self.work_group_summary.clone(),
            permission_id: self.permission_id.clone(),
            permission_tool: self.permission_tool.clone(),
            permission_path: self.permission_path.clone(),
            permission_reason: self.permission_reason.clone(),
            permission_args: self.permission_args.clone(),
            permission_status: self.permission_status.clone(),
        }
    }
}

/// A deep copy of a list of blocks.
pub fn copy_items(v: &Vec<ParsedMarkdownItem>) -> (r: Vec<ParsedMarkdownItem>)
    ensures
        resp_views(r@) == resp_views(v@),
{
    let mut out: Vec<ParsedMarkdownItem> = Vec::new();
    let mut i: usize = 0;
    while i < v.len()
        invariant
            i <= v.len(),
            resp_views(out@) == resp_views(v@.take(i as int)),
        decreases v.len() - i,
    {
        proof {
            assert(v@.take(i + 1).drop_last() =~= v@.take(i as int));
            assert(v@.take(i + 1).last() == v@[i as int]);
        }
        let c = v[i].copy();
        proof {
            lemma_resp_views_push(out@, c);
        }
        out.push(c);
        i += 1;
    }
    assert(v@.take(v.len() as int) =~= v@);
    out
}

// ---------------------------------------------------------------------------
// Display grouping
// ---------------------------------------------------------------------------

/// A thinking card or tool card that stands on its own, outside any
/// activity group (turns saved before groups existed hold these).
pub open spec fn is_loose_activity(x: RespView) -> bool {
    x.kind == "thinking"@ || x.kind == "tool"@
}

/// A card that is still in progress: thinking, or a running tool.
pub open spec fn is_busy(x: RespView) -> bool {
    x.is_thinking_active || (x.kind == "tool"@ && x.tool_status == "running"@)
}

pub open spec fn any_busy(s: Seq<RespView>) -> bool {
    exists|i: int| 0 <= i < s.len() && is_busy(#[trigger] s[i])
}

/// The activity group that gathers a run of loose cards.
pub open spec fn legacy_group(cards: Seq<RespView>) -> RespView {
    RespView {
        work_group_items: cards,
        work_group_active: any_busy(cards),
        work_group_elapsed_secs: 0,
        work_group_summary: work_summary(cards),
        ..resp_default("work_group"@, seq![])
    }
}

/// `out`, followed by the group of `pending` if any card is pending.
pub open spec fn flush_pending(out: Seq<RespView>, pending: Seq<RespView>) -> Seq<RespView> {
    if pending.len() > 0 {
        out.push(legacy_group(pending))
    } else {
        out
    }
}

/// One block read: loose cards wait; a group or any other block first
/// lets the waiting cards out as a group; whitespace-only text is dropped.
pub open spec fn display_step(
    acc: (Seq<RespView>, Seq<RespView>),
    x: RespView,
) -> (Seq<RespView>, Seq<RespView>) {
    let (out, pending) = acc;
    if is_loose_activity(x) {
        (out, pending.push(x))
    } else if x.kind == "work_group"@ {
        (flush_pending(out, pending).push(x), seq![])
    } else if x.kind == "text"@ && all_ws(x.text) {
        (out, pending)
    } else {
        (flush_pending(out, pending).push(x), seq![])
    }
}

pub open spec fn display_fold(s: Seq<RespView>) -> (Seq<RespView>, Seq<RespView>)
    decreases s.len(),
{
    if s.len() == 0 {
        (seq![], seq![])
    } else {
        display_step(display_fold(s.drop_last()), s.last())
    }
}

/// The blocks of a turn as they are shown: runs of loose cards gathered
/// into activity groups, blank text blocks left out, order kept.
pub open spec fn display_blocks(s: Seq<RespView>) -> Seq<RespView> {
    let (out, pending) = display_fold(s);
    flush_pending(out, pending)
}

/// Gathers a run of loose thinking and tool cards into one activity group,
/// active while any of them is, summarised, with no elapsed time.
pub fn convert_legacy_work_items(items: Vec<ParsedMarkdownItem>) -> (g: ParsedMarkdownItem)
    ensures
        resp_view(g) == legacy_group(resp_views(items@)),
{
    let ghost iv = resp_views(items@);
    proof {
        lemma_resp_views_len(items@);
        reveal_strlit("tool");
        reveal_strlit("running");
    }
    let mut active = false;
    let mut i: usize = 0;
    while i < items.len()
        invariant
            i <= items.len(),
            iv == resp_views(items@),
            iv.len() == items@.len(),
            active == any_busy(iv.take(i as int)),
        decreases items.len() - i,
    {
        proof {
            lemma_resp_views_index(items@, i as int);
        }
        let busy = items[i].is_thinking_active || (str_eq(items[i].kind.as_str(), "tool")
            && str_eq(items[i].tool_status.as_str(), "running"));
        proof {
            assert(busy == is_busy(iv[i as int]));
            let t = iv.take(i + 1);
            if busy {
                assert(t[i as int] == iv[i as int]);
            }
            if any_busy(t) {
                let k = choose|k: int| 0 <= k < t.len() && is_busy(#[trigger] t[k]);
                if k < i {
                    assert(iv.take(i as int)[k] == t[k]);
                }
            }
            if active {
                let k = choose|k: int| 0 <= k < i && is_busy(#[trigger] iv.take(i as int)[k]);
                assert(t[k] == iv.take(i as int)[k]);
            }
        }
        active = active || busy;
        i += 1;
    }
    assert(iv.take(items.len() as int) =~= iv);
    let summary = build_work_summary(items.as_slice());
    let mut group = ParsedMarkdownItem::new_default(owned("work_group"), String::new());
    proof {
        reveal_strlit("");
        assert(""@ =~= Seq::<char>::empty());
    }
    group.work_group_items = items;
    group.work_group_active = active;
    group.work_group_elapsed_secs = 0;
    group.work_group_summary = summary;
    group
}

/// The blocks of a turn as they are shown (see [`display_blocks`]); the
/// shell turns each into its widgets.
pub fn group_legacy_work_items(items: Vec<ParsedMarkdownItem>) -> (r: Vec<ParsedMarkdownItem>)
    ensures
        resp_views(r@) == display_blocks(resp_views(items@)),
{
    let ghost iv = resp_views(items@);
    proof {
        lemma_resp_views_len(items@);
        reveal_strlit("thinking");
        reveal_strlit("tool");
        reveal_strlit("work_group");
        reveal_strlit("text");
    }
    let mut out: Vec<ParsedMarkdownItem> = Vec::new();
    let mut pending: Vec<ParsedMarkdownItem> = Vec::new();
    let mut i: usize = 0;
    while i < items.len()
        invariant
            i <= items.len(),
            iv == resp_views(items@),
            iv.len() == items@.len(),
            (resp_views(out@), resp_views(pending@)) == display_fold(iv.take(i as int)),
        decreases items.len() - i,
    {
        proof {
            lemma_resp_views_index(items@, i as int);
            assert(iv.take(i + 1).drop_last() =~= iv.take(i as int));
            assert(iv.take(i + 1).last() == iv[i as int]);
        }
        let item = items[i].copy();
        let ghost x = resp_view(item);
        let loose = str_eq(item.kind.as_str(), "thinking") || str_eq(item.kind.as_str(), "tool");
        let group = str_eq(item.kind.as_str(), "work_group");
        let blank = str_eq(item.kind.as_str(), "text") && is_blank(item.text.as_str());
        if loose {
            proof {
                lemma_resp_views_push(pending@, item);
            }
            pending.push(item);
        } else if group || !blank {
            if pending.len() > 0 {
                let mut cards: Vec<ParsedMarkdownItem> = Vec::new();
                std::mem::swap(&mut cards, &mut pending);
                let g = convert_legacy_work_items(cards);
                proof {
                    lemma_resp_views_push(out@, g);
                }
                out.push(g);
            } else {
                proof {
                    lemma_resp_views_len(pending@);
                }
            }
            proof {
                lemma_resp_views_push(out@, item);
                assert(resp_views(Seq::<ParsedMarkdownItem>::empty()) =~= seq![]);
            }
            out.push(item);
            pending = Vec::new();
        }
        i += 1;
    }
    assert(iv.take(items.len() as int) =~= iv);
    if pending.len() > 0 {
        let g = convert_legacy_work_items(pending);
        proof {
            lemma_resp_views_push(out@, g);
        }
        out.push(g);
    } else {
        proof {
            lemma_resp_views_len(pending@);
        }
    }
    out
}

/// Folds the activity group at `idx` open or shut; other indexes change
/// nothing.
pub fn toggle_work_group_expanded(blocks: &mut Vec<ParsedMarkdownItem>, idx: usize)
    ensures
        resp_views(final(blocks)@) == if idx < old(blocks)@.len() {
            resp_views(old(blocks)@).update(
                idx as int,
                RespView {
                    work_group_expanded: !resp_views(old(blocks)@)[idx as int].work_group_expanded,
                    ..resp_views(old(blocks)@)[idx as int]
                },
            )
        } else {
            resp_views(old(blocks)@)
        },
{
    if idx < blocks.len() {
        proof {
            lemma_resp_views_index(blocks@, idx as int);
        }
        let mut b = blocks[idx].copy();
        b.work_group_expanded = !b.work_group_expanded;
        proof {
            lemma_resp_views_update(blocks@, idx as int, b);
        }
        blocks.set(idx, b);
    }
}

/// Folds entry `item` of the activity group at `idx` open or shut; indexes
/// out of range change nothing.
pub fn toggle_work_item_expanded(blocks: &mut Vec<ParsedMarkdownItem>, idx: usize, item: usize)
    ensures
        resp_views(final(blocks)@) == if idx < old(blocks)@.len() && item < resp_views(
            old(blocks)@,
        )[idx as int].work_group_items.len() {
            resp_views(old(blocks)@).update(
                idx as int,
                RespView {
                    work_group_items: resp_views(old(blocks)@)[idx as int].work_group_items.update(
                        item as int,
                        RespView {
                            item_expanded: !resp_views(old(blocks)@)[idx as int].work_group_items[item as int].item_expanded,
                            ..resp_views(old(blocks)@)[idx as int].work_group_items[item as int]
                        },
                    ),
                    ..resp_views(old(blocks)@)[idx as int]
                },
            )
        } else {
            resp_views(old(blocks)@)
        },
{
    if idx < blocks.len() {
        proof {
            lemma_resp_views_index(blocks@, idx as int);
            lemma_resp_views_len(blocks@[idx as int].work_group_items@);
        }
        if item < blocks[idx].work_group_items.len() {
            let mut b = blocks[idx].copy();
            proof {
                lemma_resp_views_len(b.work_group_items@);
                lemma_resp_views_index(b.work_group_items@, item as int);
            }
            let mut e = b.work_group_items[item].copy();
            e.item_expanded = !e.item_expanded;
            proof {
                lemma_resp_views_update(b.work_group_items@, item as int, e);
            }
            b.work_group_items.set(item, e);
            proof {
                lemma_resp_views_update(blocks@, idx as int, b);
            }
            blocks.set(idx, b);
        }
    }
}

/// A shown block is neither a loose card nor blank text.
pub open spec fn shown_clean(b: RespView) -> bool {
    !is_loose_activity(b) && !(b.kind == "text"@ && all_ws(b.text))
}

proof fn lemma_group_clean(cards: Seq<RespView>)
    ensures
        shown_clean(legacy_group(cards)),
{
    reveal_strlit("work_group");
    reveal_strlit("thinking");
    reveal_strlit("tool");
    reveal_strlit("text");
    assert("work_group"@.len() == 10 && "thinking"@.len() == 8 && "tool"@.len() == 4 && "text"@.len() == 4);
}

proof fn lemma_display_fold_clean(s: Seq<RespView>)
    ensures
        forall|i: int| 0 <= i < display_fold(s).0.len() ==> shown_clean(#[trigger] display_fold(s).0[i]),
        forall|i: int| 0 <= i < display_fold(s).1.len() ==> is_loose_activity(#[trigger] display_fold(s).1[i]),
    decreases s.len(),
{
    if s.len() > 0 {
        lemma_display_fold_clean(s.drop_last());
        let (out, pending) = display_fold(s.drop_last());
        let x = s.last();
        if pending.len() > 0 {
            lemma_group_clean(pending);
        }
        if !is_loose_activity(x) && x.kind == "work_group"@ {
            reveal_strlit("work_group");
            reveal_strlit("text");
            assert("work_group"@.len() == 10 && "text"@.len() == 4);
        }
        let f = flush_pending(out, pending);
        assert forall|i: int| 0 <= i < f.len() implies shown_clean(#[trigger] f[i]) by {
            if i < out.len() {
                assert(f[i] == out[i]);
            }
        }
        let r = display_fold(s);
        assert forall|i: int| 0 <= i < r.0.len() implies shown_clean(#[trigger] r.0[i]) by {
            if i < f.len() && r.0.len() == f.len() + 1 {
                assert(r.0[i] == f[i]);
            } else if r.0.len() == out.len() {
                assert(r.0[i] == out[i]);
            }
        }
        assert forall|i: int| 0 <= i < r.1.len() implies is_loose_activity(#[trigger] r.1[i]) by {
            if i < pending.len() {
                assert(r.1[i] == pending[i]);
            }
        }
    }
}

/// No block shown for a turn is a loose thinking or tool card (they are
/// all gathered into activity groups), and none is blank text.
pub proof fn lemma_shown_blocks_clean(s: Seq<RespView>)
    ensures
        forall|i: int| 0 <= i < display_blocks(s).len() ==> shown_clean(#[trigger] display_blocks(s)[i]),
{
    lemma_display_fold_clean(s);
    let (out, pending) = display_fold(s);
    if pending.len() > 0 {
        lemma_group_clean(pending);
    }
    let r = display_blocks(s);
    assert forall|i: int| 0 <= i < r.len() implies shown_clean(#[trigger] r[i]) by {
        if i < out.len() {
            assert(r[i] == out[i]);
        }
    }
}

} // verus!
