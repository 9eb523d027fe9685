//! Turning agent session events into updates of the streamed turn.
//!
//! The session's event loop waits for events and performs the UI updates;
//! deciding what an event does to the turn, and what to show, happens here.

use crate::main_content::context::{format_tokens, token_text};
use crate::main_content::markdown::{resp_views, ParsedMarkdownItem, RespView};
use crate::main_content::permission::{
    append_approval_required, append_approval_resolved, append_permission_denied_event,
    denied_spec, required_spec, resolved_spec,
};
use crate::main_content::assistant_messages::assoc::lookup;
use crate::main_content::keyed::{
    lemma_insert_entries, lemma_lookup_entry, lemma_remove_entries, remove_key,
};
use crate::main_content::permission::prompt;
use crate::main_content::reasoning::{
    close_spec, ensure_spec, reuses_group, entry_exists, flush_spec, lemma_last_group, push_entry, set_entry,
    snapshot, text_spec, thinking_spec, ResponseState, StateView,
};
use crate::main_content::tools::cards::{
    append_tool_args_ready, append_tool_result, append_tool_start, args_ready_spec, last_segment,
    new_card_spec, result_spec, start_spec, stream_id,
};
use crate::main_content::tools::diff::first_present;
use crate::main_content::tools::json::{json_member, json_member_of, JsonMember, MemberView};
use crate::text::{chars_of, owned, push_str_chars, str_eq, string_of};
use vstd::prelude::*;

verus! {

/// What an agent session reports while it works.
#[derive(Debug, Clone, PartialEq, Eq)]
pub enum SessionUpdate {
    TextDelta { text: String },
    ThinkingDelta { text: String },
    ToolCallStart { call_id: String, name: String },
    ToolCallArgsReady { call_id: String, name: String, args_json: String },
    ToolCallResult { call_id: String, name: String, is_error: bool, content_json: String },
    ApprovalRequired {
        id: String,
        tool: String,
        path: Option<String>,
        reason: String,
        args_json: String,
    },
    ApprovalGranted { id: String },
    PermissionDenied { tool: String, path: Option<String>, reason: String },
    ContextUsageUpdated { current_context_tokens: i32, context_window: i32 },
    /// Anything the turn does not show.
    Other,
}

/// What the window should show after an event.
#[derive(Debug)]
pub enum UiUpdate {
    /// Nothing changes on screen.
    Nothing,
    /// The turn's blocks, redrawn.
    Blocks(Vec<ParsedMarkdownItem>),
    /// The turn's blocks, and the prompt asking for a permission.
    PermissionPrompt {
        blocks: Vec<ParsedMarkdownItem>,
        id: String,
        tool: String,
        path: String,
        reason: String,
        action: String,
        target: String,
    },
    /// The turn's blocks, with the permission prompt dismissed.
    PermissionDismissed(Vec<ParsedMarkdownItem>),
    /// The context usage indicator.
    ContextUsage { text: String, used: i32, total: i32 },
}

// ---------------------------------------------------------------------------
// Permission prompt wording
// ---------------------------------------------------------------------------

/// What a tool asks permission for, in words.
pub open spec fn permission_action(tool: Seq<char>) -> Seq<char> {
    if tool == "write"@ || tool == "edit"@ || tool == "append"@ {
        "edit"@
    } else if tool == "read"@ {
        "read"@
    } else if tool == "delete"@ {
        "delete"@
    } else if tool == "ls"@ || tool == "list_dir"@ {
        "list files in"@
    } else if tool == "grep"@ || tool == "grep_search"@ {
        "search directory"@
    } else if tool == "bash"@ || tool == "run_command"@ {
        "execute command"@
    } else if tool == "web_search"@ || tool == "search_web"@ {
        "search the web"@
    } else if tool == "web_fetch"@ || tool == "read_url_content"@ {
        "fetch web page"@
    } else {
        "run "@ + tool
    }
}

/// The file a permission concerns: the path's last segment, else the one
/// the arguments name, else the command they run, else nothing.
pub open spec fn permission_file(path: Seq<char>, args: Seq<char>) -> Seq<char> {
    if path.len() > 0 {
        last_segment(path)
    } else {
        match first_present(
            first_present(json_member(args, "path"@), json_member(args, "paths"@)),
            json_member(args, "dir"@),
        ) {
            MemberView::Text(p) => last_segment(p),
            _ => match first_present(json_member(args, "CommandLine"@), json_member(args, "command"@)) {
                MemberView::Text(c) => c,
                _ => seq![],
            },
        }
    }
}

/// What a permission concerns, in words.
pub open spec fn permission_target(tool: Seq<char>, path: Seq<char>, args: Seq<char>) -> Seq<char> {
    let f = permission_file(path, args);
    if f.len() == 0 {
        if tool == "load_tools"@ || tool == "list_tools"@ {
            "available tools"@
        } else {
            seq![]
        }
    } else {
        f
    }
}

fn last_segment_of(p: &Vec<char>) -> (r: Vec<char>)
    ensures
        r@ == last_segment(p@),
{
    let mut i: usize = p.len();
    assert(p@.take(p.len() as int) =~= p@);
    assert(p@.skip(p.len() as int) =~= seq![]);
    assert(p@ + seq![] =~= p@);
    while i > 0 && p[i - 1] != '/' && p[i - 1] != '\\'
        invariant
            i <= p.len(),
            last_segment(p@) == last_segment(p@.take(i as int)) + p@.skip(i as int),
        decreases i,
    {
        proof {
            assert(p@.take(i as int).drop_last() =~= p@.take(i - 1));
            assert(p@.skip(i - 1) =~= seq![p@[i - 1]] + p@.skip(i as int));
            assert(last_segment(p@.take(i - 1)).push(p@[i - 1]) + p@.skip(i as int) =~= last_segment(
                p@.take(i - 1),
            ) + p@.skip(i - 1));
        }
        i -= 1;
    }
    proof {
        if i > 0 {
            assert(p@.take(i as int).last() == p@[i - 1]);
        }
    }
    assert(last_segment(p@.take(i as int)) =~= seq![]);
    let mut r: Vec<char> = Vec::new();
    let mut k: usize = i;
    while k < p.len()
        invariant
            i <= k <= p.len(),
            r@ == p@.subrange(i as int, k as int),
        decreases p.len() - k,
    {
        r.push(p[k]);
        k += 1;
        assert(r@ =~= p@.subrange(i as int, k as int));
    }
    assert(r@ =~= p@.skip(i as int));
    r
}

/// The action and target a permission prompt names.
pub fn get_permission_display_info(tool: &str, path: &str, args_json: &str) -> (r: (String, String))
    ensures
        r.0@ == permission_action(tool@),
        r.1@ == permission_target(tool@, path@, args_json@),
{
    let pv = chars_of(path);
    let file: Vec<char> = if pv.len() > 0 {
        last_segment_of(&pv)
    } else {
        let m1 = json_member_of(args_json, "path");
        let m2 = match m1 {
            JsonMember::Missing => json_member_of(args_json, "paths"),
            other => other,
        };
        let m3 = match m2 {
            JsonMember::Missing => json_member_of(args_json, "dir"),
            other => other,
        };
        match m3 {
            JsonMember::Text(p) => {
                let v = chars_of(p.as_str());
                last_segment_of(&v)
            },
            _ => {
                let c1 = json_member_of(args_json, "CommandLine");
                let c2 = match c1 {
                    JsonMember::Missing => json_member_of(args_json, "command"),
                    other => other,
                };
                match c2 {
                    JsonMember::Text(c) => chars_of(c.as_str()),
                    _ => Vec::new(),
                }
            },
        }
    };
    let action = if str_eq(tool, "write") || str_eq(tool, "edit") || str_eq(tool, "append") {
        owned("edit")
    } else if str_eq(tool, "read") {
        owned("read")
    } else if str_eq(tool, "delete") {
        owned("delete")
    } else if str_eq(tool, "ls") || str_eq(tool, "list_dir") {
        owned("list files in")
    } else if str_eq(tool, "grep") || str_eq(tool, "grep_search") {
        owned("search directory")
    } else if str_eq(tool, "bash") || str_eq(tool, "run_command") {
        owned("execute command")
    } else if str_eq(tool, "web_search") || str_eq(tool, "search_web") {
        owned("search the web")
    } else if str_eq(tool, "web_fetch") || str_eq(tool, "read_url_content") {
        owned("fetch web page")
    } else {
        let mut v = chars_of("run ");
        push_str_chars(&mut v, tool);
        string_of(v.as_slice())
    };
    let target = if file.len() == 0 {
        if str_eq(tool, "load_tools") || str_eq(tool, "list_tools") {
            owned("available tools")
        } else {
            String::new()
        }
    } else {
        string_of(file.as_slice())
    };
    proof {
        reveal_strlit("");
        assert(""@ =~= Seq::<char>::empty());
    }
    (action, target)
}

// ---------------------------------------------------------------------------
// Events
// ---------------------------------------------------------------------------

pub open spec fn opt_path(p: Option<String>) -> Seq<char> {
    match p {
        Some(s) => s@,
        None => seq![],
    }
}

/// The turn after an event; `e` is the clock's reading where an activity
/// group has to close on the way.
pub open spec fn next_state(s: StateView, ev: SessionUpdate, e: u64) -> StateView {
    match ev {
        SessionUpdate::TextDelta { text } => text_spec(s, text@),
        SessionUpdate::ThinkingDelta { text } => thinking_spec(s, text@, e),
        SessionUpdate::ToolCallStart { call_id, name } => start_spec(s, call_id@, name@, e),
        SessionUpdate::ToolCallArgsReady { call_id, name, args_json } => args_ready_spec(
            s,
            call_id@,
            name@,
            args_json@,
        ),
        SessionUpdate::ToolCallResult { call_id, name, is_error, content_json } => result_spec(
            s,
            call_id@,
            name@,
            is_error,
            content_json@,
            e,
        ),
        SessionUpdate::ApprovalRequired { id, tool, path, reason, args_json } => required_spec(
            s,
            id@,
            tool@,
            opt_path(path),
            reason@,
            args_json@,
        ),
        SessionUpdate::ApprovalGranted { id } => resolved_spec(s, id@, true),
        SessionUpdate::PermissionDenied { .. } => denied_spec(s),
        _ => s,
    }
}

/// Whether the update shows what an event calls for, `shown` being the
/// blocks of the turn after it as the clock then reads.
pub open spec fn shows(ev: SessionUpdate, u: UiUpdate, shown: Seq<RespView>) -> bool {
    match ev {
        SessionUpdate::TextDelta { .. } | SessionUpdate::ThinkingDelta { .. }
        | SessionUpdate::ToolCallStart { .. } | SessionUpdate::ToolCallArgsReady { .. }
        | SessionUpdate::ToolCallResult { .. } | SessionUpdate::ApprovalGranted { .. } => u matches UiUpdate::Blocks(b) && resp_views(b@)
            == shown,
        SessionUpdate::ApprovalRequired { id, tool, path, reason, args_json } => {
            &&& u matches UiUpdate::PermissionPrompt { blocks, id: i, tool: t, path: p, reason: r, action, target }
            &&& resp_views(blocks@) == shown
            &&& i@ == id@ && t@ == tool@ && p@ == opt_path(path) && r@ == reason@
            &&& action@ == permission_action(tool@)
            &&& target@ == permission_target(tool@, opt_path(path), args_json@)
        },
        SessionUpdate::PermissionDenied { .. } => u matches UiUpdate::PermissionDismissed(b)
            && resp_views(b@) == shown,
        SessionUpdate::ContextUsageUpdated { current_context_tokens, context_window } => {
            &&& u matches UiUpdate::ContextUsage { text, used, total }
            &&& text@ == token_text(current_context_tokens) + "/"@ + token_text(context_window)
            &&& used == current_context_tokens && total == context_window
        },
        _ => u is Nothing,
    }
}

/// Applies one session event to the streamed turn and says what to show.
pub fn handle_session_event(state: &mut ResponseState, event: SessionUpdate) -> (r: UiUpdate)
    ensures
        reuses_group(old(state)@) ==> final(state).work_group_start == old(state).work_group_start,
        final(state).work_group_start == old(state).work_group_start || final(state).work_group_start is Some,
        exists|e1: u64, e2: u64|
            final(state)@ == next_state(old(state)@, event, e1) && shows(
                event,
                r,
                snapshot(final(state)@, e2),
            ),
{
    let ghost s0 = state@;
    let ghost ev = event;
    match event {
        SessionUpdate::TextDelta { text } => {
            state.append_text(text.as_str());
            let b = state.build_parsed_items();
            proof {
                let e2 = choose|e2: u64| resp_views(b@) == snapshot(state@, e2);
                assert(state@ == next_state(s0, ev, 0) && shows(ev, UiUpdate::Blocks(b), snapshot(state@, e2)));
            }
            UiUpdate::Blocks(b)
        },
        SessionUpdate::ThinkingDelta { text } => {
            state.append_thinking(text.as_str());
            let b = state.build_parsed_items();
            proof {
                let e1 = choose|e1: u64| state@ == thinking_spec(s0, text@, e1);
                let e2 = choose|e2: u64| resp_views(b@) == snapshot(state@, e2);
                assert(state@ == next_state(s0, ev, e1) && shows(ev, UiUpdate::Blocks(b), snapshot(state@, e2)));
            }
            UiUpdate::Blocks(b)
        },
        SessionUpdate::ToolCallStart { call_id, name } => {
            append_tool_start(state, call_id.as_str(), name.as_str());
            let b = state.build_parsed_items();
            proof {
                let e1 = choose|e1: u64| state@ == start_spec(s0, call_id@, name@, e1);
                let e2 = choose|e2: u64| resp_views(b@) == snapshot(state@, e2);
                assert(state@ == next_state(s0, ev, e1) && shows(ev, UiUpdate::Blocks(b), snapshot(state@, e2)));
            }
            UiUpdate::Blocks(b)
        },
        SessionUpdate::ToolCallArgsReady { call_id, name, args_json } => {
            append_tool_args_ready(state, call_id.as_str(), name.as_str(), args_json.as_str());
            let b = state.build_parsed_items();
            proof {
                let e2 = choose|e2: u64| resp_views(b@) == snapshot(state@, e2);
                assert(state@ == next_state(s0, ev, 0) && shows(ev, UiUpdate::Blocks(b), snapshot(state@, e2)));
            }
            UiUpdate::Blocks(b)
        },
        SessionUpdate::ToolCallResult { call_id, name, is_error, content_json } => {
            append_tool_result(state, call_id.as_str(), name.as_str(), is_error, content_json.as_str());
            let b = state.build_parsed_items();
            proof {
                let e1 = choose|e1: u64|
                    state@ == result_spec(s0, call_id@, name@, is_error, content_json@, e1);
                let e2 = choose|e2: u64| resp_views(b@) == snapshot(state@, e2);
                assert(state@ == next_state(s0, ev, e1) && shows(ev, UiUpdate::Blocks(b), snapshot(state@, e2)));
            }
            UiUpdate::Blocks(b)
        },
        SessionUpdate::ApprovalRequired { id, tool, path, reason, args_json } => {
            let path_str = match path {
                Some(p) => p,
                None => String::new(),
            };
            proof {
                reveal_strlit("");
                assert(""@ =~= Seq::<char>::empty());
            }
            append_approval_required(
                state,
                id.as_str(),
                tool.as_str(),
                path_str.as_str(),
                reason.as_str(),
                args_json.as_str(),
            );
            let b = state.build_parsed_items();
            let (action, target) = get_permission_display_info(
                tool.as_str(),
                path_str.as_str(),
                args_json.as_str(),
            );
            let u = UiUpdate::PermissionPrompt {
                blocks: b,
                id,
                tool,
                path: path_str,
                reason,
                action,
                target,
            };
            proof {
                let e2 = choose|e2: u64| resp_views(b@) == snapshot(state@, e2);
                assert(state@ == next_state(s0, ev, 0) && shows(ev, u, snapshot(state@, e2)));
            }
            u
        },
        SessionUpdate::ApprovalGranted { id } => {
            append_approval_resolved(state, id.as_str(), true);
            let b = state.build_parsed_items();
            proof {
                let e2 = choose|e2: u64| resp_views(b@) == snapshot(state@, e2);
                assert(state@ == next_state(s0, ev, 0) && shows(ev, UiUpdate::Blocks(b), snapshot(state@, e2)));
            }
            UiUpdate::Blocks(b)
        },
        SessionUpdate::PermissionDenied { tool, path, reason } => {
            let path_str = match path {
                Some(p) => p,
                None => String::new(),
            };
            append_permission_denied_event(state, tool.as_str(), path_str.as_str(), reason.as_str());
            let b = state.build_parsed_items();
            proof {
                let e2 = choose|e2: u64| resp_views(b@) == snapshot(state@, e2);
                assert(state@ == next_state(s0, ev, 0) && shows(ev, UiUpdate::PermissionDismissed(b), snapshot(state@, e2)));
            }
            UiUpdate::PermissionDismissed(b)
        },
        SessionUpdate::ContextUsageUpdated { current_context_tokens, context_window } => {
            let text = format_tokens(current_context_tokens, context_window);
            let u = UiUpdate::ContextUsage { text, used: current_context_tokens, total: context_window };
            assert(state@ == next_state(s0, ev, 0) && shows(ev, u, snapshot(state@, 0)));
            u
        },
        SessionUpdate::Other => {
            assert(state@ == next_state(s0, ev, 0) && shows(ev, UiUpdate::Nothing, snapshot(state@, 0)));
            UiUpdate::Nothing
        },
    }
}

// ---------------------------------------------------------------------------
// Ids keep pointing at their cards
// ---------------------------------------------------------------------------

/// Every tool call id points at an entry of an activity group, and every
/// permission id at a block.
pub open spec fn ids_valid(s: StateView) -> bool {
    &&& forall|x: (Seq<char>, (usize, usize))| #[trigger]
        s.tools.contains(x) ==> entry_exists(s.blocks, x.1.0 as int, x.1.1 as int)
    &&& forall|x: (Seq<char>, usize)| #[trigger] s.perms.contains(x) ==> (x.1 as int) < s.blocks.len()
}

/// Block and entry counts stay clear of the top of `usize`.
pub open spec fn sizes_fit(s: StateView) -> bool {
    &&& s.blocks.len() + 2 <= usize::MAX
    &&& forall|g: int| 0 <= g < s.blocks.len() ==> #[trigger] s.blocks[g].work_group_items.len() + 1
        <= usize::MAX
}

/// `b` keeps the blocks of `a` with their entry counts and adds blocks without entries.
pub open spec fn same_shape(a: Seq<RespView>, b: Seq<RespView>) -> bool {
    &&& a.len() <= b.len()
    &&& forall|g: int| 0 <= g < a.len() ==> #[trigger] b[g].work_group_items.len()
        == a[g].work_group_items.len()
    &&& forall|g: int| a.len() <= g < b.len() ==> #[trigger] b[g].work_group_items.len() == 0
}

/// `b` keeps the blocks of `a` and no block loses entries.
pub open spec fn grows(a: Seq<RespView>, b: Seq<RespView>) -> bool {
    &&& a.len() <= b.len()
    &&& forall|g: int|
        0 <= g < a.len() ==> a[g].work_group_items.len() <= (#[trigger] b[g]).work_group_items.len()
}

proof fn lemma_shape_trans(a: Seq<RespView>, b: Seq<RespView>, c: Seq<RespView>)
    requires
        same_shape(a, b),
        same_shape(b, c),
    ensures
        same_shape(a, c),
{
    assert forall|g: int| a.len() <= g < c.len() implies #[trigger] c[g].work_group_items.len()
        == 0 by {
        if g < b.len() {
            assert(b[g].work_group_items.len() == 0);
        }
    }
}

proof fn lemma_ids_carry(s: StateView, t: StateView)
    requires
        ids_valid(s),
        grows(s.blocks, t.blocks),
        t.tools == s.tools,
        t.perms == s.perms,
    ensures
        ids_valid(t),
{
    assert forall|x: (Seq<char>, (usize, usize))| #[trigger] t.tools.contains(x) implies entry_exists(
        t.blocks,
        x.1.0 as int,
        x.1.1 as int,
    ) by {
        assert(s.tools.contains(x));
        assert(s.blocks[x.1.0 as int].work_group_items.len() <= t.blocks[x.1.0 as int].work_group_items.len());
    }
}

pub(crate) proof fn lemma_fit_carry(s: StateView, t: StateView, extra: nat)
    requires
        sizes_fit(s),
        same_shape(s.blocks, t.blocks),
        t.blocks.len() <= s.blocks.len() + extra,
        extra <= 2,
    ensures
        t.blocks.len() <= s.blocks.len() + 2,
        forall|g: int| 0 <= g < t.blocks.len() ==> #[trigger] t.blocks[g].work_group_items.len() + 1
            <= usize::MAX,
{
    assert forall|g: int| 0 <= g < t.blocks.len() implies #[trigger] t.blocks[g].work_group_items.len()
        + 1 <= usize::MAX by {
        if g < s.blocks.len() {
            assert(s.blocks[g].work_group_items.len() + 1 <= usize::MAX);
        }
    }
}

proof fn lemma_close_shape(s: StateView, e: u64)
    ensures
        same_shape(s.blocks, close_spec(s, e).blocks),
        close_spec(s, e).blocks.len() == s.blocks.len(),
        close_spec(s, e).tools == s.tools,
        close_spec(s, e).perms == s.perms,
{
    lemma_last_group(s.blocks, true);
    lemma_last_group(s.blocks, false);
}

pub(crate) proof fn lemma_ensure_shape(s: StateView, e: u64)
    ensures
        ({
            let (t, gi) = ensure_spec(s, e);
            &&& same_shape(s.blocks, t.blocks)
            &&& t.blocks.len() <= s.blocks.len() + 2
            &&& 0 <= gi < t.blocks.len()
            &&& t.tools == s.tools
            &&& t.perms == s.perms
        }),
{
    lemma_close_shape(s, e);
    let s1 = if !crate::text::all_ws(s.acc) && s.open {
        flush_spec(close_spec(s, e))
    } else {
        flush_spec(s)
    };
    assert(same_shape(s.blocks, s1.blocks)) by {
        if !crate::text::all_ws(s.acc) && s.open {
            lemma_shape_trans(s.blocks, close_spec(s, e).blocks, s1.blocks);
        }
    }
    lemma_last_group(s1.blocks, false);
    let (t, gi) = ensure_spec(s, e);
    lemma_shape_trans(s.blocks, s1.blocks, t.blocks);
}

proof fn lemma_new_card_ids(s: StateView, key: Seq<char>, card: RespView, e: u64)
    requires
        ids_valid(s),
        sizes_fit(s),
    ensures
        ids_valid(new_card_spec(s, key, card, e)),
{
    let s0 = StateView { in_thinking: false, ..s };
    lemma_ensure_shape(s0, e);
    let (s1, gi) = ensure_spec(s0, e);
    lemma_ids_carry(s0, s1);
    lemma_fit_carry(s0, s1, 2);
    let ii = s1.blocks[gi].work_group_items.len();
    let b2 = push_entry(s1.blocks, gi, card);
    let t = new_card_spec(s, key, card, e);
    lemma_insert_entries(s1.tools, key, (gi as usize, ii as usize));
    assert forall|x: (Seq<char>, (usize, usize))| #[trigger] t.tools.contains(x) implies entry_exists(
        t.blocks,
        x.1.0 as int,
        x.1.1 as int,
    ) by {
        if s1.tools.contains(x) {
            assert(entry_exists(s1.blocks, x.1.0 as int, x.1.1 as int));
        }
    }
}

/// Whatever event arrives, every tool call id keeps pointing at an entry of
/// an activity group and every permission id at a block.
pub proof fn lemma_event_keeps_ids(s: StateView, ev: SessionUpdate, e: u64)
    requires
        ids_valid(s),
        sizes_fit(s),
    ensures
        ids_valid(next_state(s, ev, e)),
{
    match ev {
        SessionUpdate::TextDelta { text } => {
            lemma_ids_carry(s, next_state(s, ev, e));
        },
        SessionUpdate::ThinkingDelta { text } => {
            lemma_ensure_shape(s, e);
            let (s1, gi) = ensure_spec(s, e);
            lemma_ids_carry(s, s1);
            lemma_ids_carry(s1, thinking_spec(s, text@, e));
        },
        SessionUpdate::ToolCallStart { call_id, name } => {
            let known = match stream_id(call_id@) {
                Some(sk) => match lookup(s.tools, sk) {
                    Some(gi) => Some((sk, gi)),
                    None => None,
                },
                None => None,
            };
            match known {
                Some((sk, (g, i))) => {
                    lemma_lookup_entry(s.tools, sk);
                    assert(s.tools.contains((sk, (g, i))));
                    let t = start_spec(s, call_id@, name@, e);
                    assert(same_shape(s.blocks, t.blocks));
                    lemma_remove_entries(s.tools, sk);
                    lemma_insert_entries(remove_key(s.tools, sk), call_id@, (g, i));
                    assert forall|x: (Seq<char>, (usize, usize))| #[trigger] t.tools.contains(x)
                        implies entry_exists(t.blocks, x.1.0 as int, x.1.1 as int) by {
                        if remove_key(s.tools, sk).contains(x) {
                            assert(s.tools.contains(x));
                        }
                    }
                },
                None => {
                    lemma_new_card_ids(s, call_id@, crate::main_content::tools::cards::running_card(
                        name@,
                        crate::main_content::tools::cards::friendly_title(name@, seq![], false),
                        call_id@,
                    ), e);
                },
            }
        },
        SessionUpdate::ToolCallArgsReady { call_id, name, args_json } => {
            lemma_ids_carry(s, next_state(s, ev, e));
        },
        SessionUpdate::ToolCallResult { call_id, name, is_error, content_json } => {
            match lookup(s.tools, call_id@) {
                Some(_) => {
                    lemma_ids_carry(s, next_state(s, ev, e));
                },
                None => {
                    let title = crate::main_content::tools::cards::friendly_title(name@, seq![], true);
                    lemma_new_card_ids(
                        s,
                        call_id@,
                        crate::main_content::tools::diff::overlay(
                            RespView {
                                tool_name: name@,
                                tool_title: title,
                                tool_status: crate::main_content::tools::cards::status_text(is_error),
                                tool_result: crate::main_content::tools::cards::shown_result(
                                    content_json@,
                                ),
                                tool_call_id: call_id@,
                                ..crate::main_content::markdown::resp_default("tool"@, seq![])
                            },
                            name@,
                            seq![],
                        ),
                        e,
                    );
                },
            }
        },
        SessionUpdate::ApprovalRequired { id, tool, path, reason, args_json } => {
            let s1 = crate::main_content::reasoning::StateView { in_thinking: false, ..flush_spec(s) };
            lemma_ids_carry(s, s1);
            let t = next_state(s, ev, e);
            lemma_insert_entries(s1.perms, id@, s1.blocks.len() as usize);
            assert forall|x: (Seq<char>, (usize, usize))| #[trigger] t.tools.contains(x) implies entry_exists(
                t.blocks,
                x.1.0 as int,
                x.1.1 as int,
            ) by {
                assert(s1.tools.contains(x));
                assert(t.blocks[x.1.0 as int] == s1.blocks[x.1.0 as int]);
            }
            assert forall|x: (Seq<char>, usize)| #[trigger] t.perms.contains(x) implies (x.1 as int)
                < t.blocks.len() by {
                if s1.perms.contains(x) {
                }
            }
        },
        SessionUpdate::ApprovalGranted { id } => {
            lemma_ids_carry(s, next_state(s, ev, e));
        },
        SessionUpdate::PermissionDenied { .. } => {
            crate::main_content::permission::lemma_last_pending(s.blocks);
            lemma_ids_carry(s, next_state(s, ev, e));
        },
        _ => {},
    }
}

} // verus!
