//! Permission prompts inside an assistant turn.
//!
//! A prompt is added when the agent asks to run a tool, and later marked
//! approved or denied.

use crate::main_content::assistant_messages::assoc::lookup;
use crate::main_content::keyed::{insert_key, key_get, key_insert};
use crate::main_content::markdown::{
    lemma_resp_views_index, lemma_resp_views_len, lemma_resp_views_push, resp_default, resp_view,
    resp_views, ParsedMarkdownItem, RespView,
};
use crate::main_content::reasoning::{flush_spec, with_blocks, ResponseState, StateView};
use crate::main_content::tools::cards::shown_args;
use crate::main_content::tools::json::json_pretty_of;
use crate::text::{owned, str_eq};
use vstd::prelude::*;

verus! {

/// A pending prompt for `tool` on `path`.
pub open spec fn prompt(
    id: Seq<char>,
    tool: Seq<char>,
    path: Seq<char>,
    reason: Seq<char>,
    args: Seq<char>,
) -> RespView {
    RespView {
        permission_id: id,
        permission_tool: tool,
        permission_path: path,
        permission_reason: reason,
        permission_args: shown_args(args),
        permission_status: "pending"@,
        ..resp_default("permission"@, seq![])
    }
}

/// A permission request: pending response text becomes a block first, then
/// the prompt is appended and its id points at it.
pub open spec fn required_spec(
    s: StateView,
    id: Seq<char>,
    tool: Seq<char>,
    path: Seq<char>,
    reason: Seq<char>,
    args: Seq<char>,
) -> StateView {
    let s1 = StateView { in_thinking: false, ..flush_spec(s) };
    StateView {
        blocks: s1.blocks.push(prompt(id, tool, path, reason, args)),
        perms: insert_key(s1.perms, id, s1.blocks.len() as usize),
        ..s1
    }
}

pub open spec fn set_status(b: RespView, status: Seq<char>) -> RespView {
    RespView { permission_status: status, ..b }
}

/// The prompt the id points at takes its answer.
pub open spec fn resolved_spec(s: StateView, id: Seq<char>, approved: bool) -> StateView {
    match lookup(s.perms, id) {
        Some(idx) => if idx < s.blocks.len() {
            with_blocks(
                s,
                s.blocks.update(
                    idx as int,
                    set_status(
                        s.blocks[idx as int],
                        if approved {
                            "approved"@
                        } else {
                            "denied"@
                        },
                    ),
                ),
            )
        } else {
            s
        },
        None => s,
    }
}

pub open spec fn is_pending_prompt(b: RespView) -> bool {
    b.kind == "permission"@ && b.permission_status == "pending"@
}

/// Index of the last pending prompt.
pub open spec fn last_pending(b: Seq<RespView>) -> Option<int>
    decreases b.len(),
{
    if b.len() == 0 {
        None
    } else if is_pending_prompt(b.last()) {
        Some(b.len() - 1)
    } else {
        last_pending(b.drop_last())
    }
}

pub proof fn lemma_last_pending(b: Seq<RespView>)
    ensures
        last_pending(b) matches Some(i) ==> 0 <= i < b.len() && is_pending_prompt(b[i]),
    decreases b.len(),
{
    if b.len() > 0 {
        lemma_last_pending(b.drop_last());
    }
}

/// A denial by policy: the latest pending prompt is marked denied.
pub open spec fn denied_spec(s: StateView) -> StateView {
    match last_pending(s.blocks) {
        Some(i) => with_blocks(s, s.blocks.update(i, set_status(s.blocks[i], "denied"@))),
        None => s,
    }
}

fn replace_status(state: &mut ResponseState, idx: usize, status: &str)
    requires
        (idx as int) < old(state)@.blocks.len(),
    ensures
        final(state).work_group_start == old(state).work_group_start,
        final(state)@ == with_blocks(
            old(state)@,
            old(state)@.blocks.update(idx as int, set_status(old(state)@.blocks[idx as int], status@)),
        ),
{
    proof {
        lemma_resp_views_len(state.current_blocks@);
        lemma_resp_views_index(state.current_blocks@, idx as int);
    }
    let ghost bv0 = resp_views(state.current_blocks@);
    let ph = ParsedMarkdownItem::new_default(String::new(), String::new());
    let mut b = state.current_blocks.remove(idx);
    b.permission_status = owned(status);
    let ghost x = b;
    state.current_blocks.insert(idx, b);
    proof {
        assert(state.current_blocks@ =~= old(state).current_blocks@.update(idx as int, x));
        crate::main_content::markdown::lemma_resp_views_update(old(state).current_blocks@, idx as int, x);
    }
}

/// Appends a pending permission prompt for a tool the agent wants to run.
pub fn append_approval_required(
    state: &mut ResponseState,
    id: &str,
    tool: &str,
    path: &str,
    reason: &str,
    args_json: &str,
)
    ensures
        final(state).work_group_start == old(state).work_group_start,
        final(state)@ == required_spec(old(state)@, id@, tool@, path@, reason@, args_json@),
{
    state.flush_text();
    state.in_thinking = false;
    let pretty = match json_pretty_of(args_json) {
        Some(p) => p,
        None => owned(args_json),
    };
    proof {
        lemma_resp_views_len(state.current_blocks@);
    }
    let idx = state.current_blocks.len();
    let mut item = ParsedMarkdownItem::new_default(owned("permission"), String::new());
    proof {
        reveal_strlit("");
        assert(""@ =~= Seq::<char>::empty());
    }
    item.permission_id = owned(id);
    item.permission_tool = owned(tool);
    item.permission_path = owned(path);
    item.permission_reason = owned(reason);
    item.permission_args = pretty;
    item.permission_status = owned("pending");
    proof {
        lemma_resp_views_push(state.current_blocks@, item);
    }
    state.current_blocks.push(item);
    key_insert(&mut state.active_permissions, id, idx);
}

/// Marks the prompt with `id` approved or denied.
pub fn append_approval_resolved(state: &mut ResponseState, id: &str, approved: bool)
    ensures
        final(state).work_group_start == old(state).work_group_start,
        final(state)@ == resolved_spec(old(state)@, id@, approved),
{
    proof {
        lemma_resp_views_len(state.current_blocks@);
    }
    if let Some(idx) = key_get(&state.active_permissions, id) {
        if idx < state.current_blocks.len() {
            replace_status(
                state,
                idx,
                if approved {
                    "approved"
                } else {
                    "denied"
                },
            );
        }
    }
}

/// Marks the latest pending permission prompt denied, when a policy rejects a tool outright.
pub fn append_permission_denied_event(
    state: &mut ResponseState,
    tool: &str,
    path: &str,
    reason: &str,
)
    ensures
        final(state).work_group_start == old(state).work_group_start,
        final(state)@ == denied_spec(old(state)@),
{
    let ghost bv = resp_views(state.current_blocks@);
    proof {
        lemma_resp_views_len(state.current_blocks@);
    }
    let mut i: usize = state.current_blocks.len();
    assert(bv.take(i as int) =~= bv);
    while i > 0
        invariant
            i <= state.current_blocks.len(),
            bv == resp_views(state.current_blocks@),
            bv.len() == state.current_blocks.len(),
            state@ == old(state)@,
            state.work_group_start == old(state).work_group_start,
            last_pending(bv) == last_pending(bv.take(i as int)),
        decreases i,
    {
        proof {
            assert(bv.take(i as int).drop_last() =~= bv.take(i - 1));
            lemma_resp_views_index(state.current_blocks@, i - 1);
            assert(bv.take(i as int).last() == resp_view(state.current_blocks@[i - 1]));
        }
        let b = &state.current_blocks[i - 1];
        if str_eq(b.kind.as_str(), "permission") && str_eq(b.permission_status.as_str(), "pending") {
            replace_status(state, i - 1, "denied");
            return;
        }
        i -= 1;
    }
}

/// Answering a permission request reaches its prompt: the prompt just
/// added takes the answer, and nothing else changes in size.
pub proof fn lemma_answer_reaches_prompt(
    s: StateView,
    id: Seq<char>,
    tool: Seq<char>,
    path: Seq<char>,
    reason: Seq<char>,
    args: Seq<char>,
    approved: bool,
)
    requires
        s.blocks.len() < usize::MAX,
    ensures
        ({
            let s1 = required_spec(s, id, tool, path, reason, args);
            let s2 = resolved_spec(s1, id, approved);
            &&& s2.blocks.len() == s1.blocks.len()
            &&& s2.blocks.last().permission_id == id
            &&& s2.blocks.last().permission_status == if approved {
                "approved"@
            } else {
                "denied"@
            }
        }),
{
    let s0 = StateView { in_thinking: false, ..flush_spec(s) };
    crate::main_content::keyed::lemma_insert_lookup(s0.perms, id, s0.blocks.len() as usize, id);
}

} // verus!
