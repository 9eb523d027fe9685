//! What every streamed turn keeps, whatever session events arrive: only its
//! last activity group can be active, and only while the turn holds an open
//! group; thinking shows as in progress only inside that group; every tool
//! call id points at a tool card inside an activity group. Ending the turn
//! leaves no group active and no thinking in progress.

use crate::executor::events::{next_state, SessionUpdate};
use crate::executor::events::{lemma_ensure_shape, lemma_fit_carry, opt_path, sizes_fit};
use crate::main_content::keyed::{lemma_insert_entries, lemma_lookup_entry, lemma_remove_entries, remove_key};
use crate::main_content::assistant_messages::assoc::lookup;
use crate::main_content::markdown::{resp_default, RespView};
use crate::main_content::permission::{last_pending, lemma_last_pending, prompt, set_status};
use crate::main_content::reasoning::{
    close_spec, ensure_spec, entry_exists, finalize_spec, flush_spec, fresh_state, last_group,
    push_entry, set_entry, settle, thinking_item, thinking_spec, StateView,
};
use crate::main_content::tools::cards::{
    detected_spec, friendly_title, new_card_spec, running_card, shown_args, shown_result, status_text, stream_id,
};
use crate::main_content::tools::diff::overlay;
use vstd::prelude::*;

verus! {

pub open spec fn is_group(b: RespView) -> bool {
    b.kind == "work_group"@
}

pub open spec fn is_active_group(b: RespView) -> bool {
    is_group(b) && b.work_group_active
}

/// Only the last activity group of the turn may be active, and only while
/// the turn has an open group; an entry shows thinking in progress only as a
/// thinking entry of that active group.
pub open spec fn groups_settled(s: StateView) -> bool {
    &&& forall|g: int, h: int|
        #![trigger s.blocks[g], s.blocks[h]]
        0 <= g < h < s.blocks.len() && is_active_group(s.blocks[g]) ==> !is_group(s.blocks[h])
    &&& forall|g: int| 0 <= g < s.blocks.len() && #[trigger] is_active_group(s.blocks[g]) ==> s.open
    &&& forall|g: int, k: int|
        #![trigger s.blocks[g].work_group_items[k]]
        0 <= g < s.blocks.len() && 0 <= k < s.blocks[g].work_group_items.len()
            && s.blocks[g].work_group_items[k].is_thinking_active ==> is_active_group(s.blocks[g])
            && s.blocks[g].work_group_items[k].kind == "thinking"@
}

/// `b` has the blocks of `a`, each of the same kind, activity and entries'
/// kinds and progress.
pub open spec fn same_status(a: Seq<RespView>, b: Seq<RespView>) -> bool {
    &&& a.len() == b.len()
    &&& forall|g: int|
        #![trigger b[g]]
        0 <= g < a.len() ==> b[g].kind == a[g].kind && b[g].work_group_active
            == a[g].work_group_active && b[g].work_group_items.len() == a[g].work_group_items.len()
    &&& forall|g: int, k: int|
        #![trigger b[g].work_group_items[k]]
        0 <= g < a.len() && 0 <= k < a[g].work_group_items.len() ==> b[g].work_group_items[k].kind
            == a[g].work_group_items[k].kind && b[g].work_group_items[k].is_thinking_active
            == a[g].work_group_items[k].is_thinking_active
}

proof fn lemma_status_carry(s: StateView, t: StateView)
    requires
        groups_settled(s),
        same_status(s.blocks, t.blocks),
        t.open == s.open,
    ensures
        groups_settled(t),
{
    assert forall|g: int, h: int|
        #![trigger t.blocks[g], t.blocks[h]]
        0 <= g < h < t.blocks.len() && is_active_group(t.blocks[g]) implies !is_group(t.blocks[h]) by {
        assert(s.blocks[g].kind == t.blocks[g].kind);
        assert(s.blocks[h].kind == t.blocks[h].kind);
    }
    assert forall|g: int| 0 <= g < t.blocks.len() && #[trigger] is_active_group(t.blocks[g]) implies t.open by {
        assert(s.blocks[g].kind == t.blocks[g].kind);
        assert(s.blocks[g].work_group_active == t.blocks[g].work_group_active);
        assert(is_active_group(s.blocks[g]));
    }
    assert forall|g: int, k: int|
        #![trigger t.blocks[g].work_group_items[k]]
        0 <= g < t.blocks.len() && 0 <= k < t.blocks[g].work_group_items.len()
            && t.blocks[g].work_group_items[k].is_thinking_active implies is_active_group(t.blocks[g])
            && t.blocks[g].work_group_items[k].kind == "thinking"@ by {
        assert(s.blocks[g].kind == t.blocks[g].kind);
        assert(s.blocks[g].work_group_items[k].kind == t.blocks[g].work_group_items[k].kind);
    }
}

proof fn lemma_set_entry_status(b: Seq<RespView>, g: int, i: int, x: RespView)
    requires
        0 <= g < b.len(),
        0 <= i < b[g].work_group_items.len(),
        x.kind == b[g].work_group_items[i].kind,
        x.is_thinking_active == b[g].work_group_items[i].is_thinking_active,
    ensures
        same_status(b, set_entry(b, g, i, x)),
{
    let c = set_entry(b, g, i, x);
    assert forall|h: int, k: int|
        #![trigger c[h].work_group_items[k]]
        0 <= h < b.len() && 0 <= k < b[h].work_group_items.len() implies c[h].work_group_items[k].kind
        == b[h].work_group_items[k].kind && c[h].work_group_items[k].is_thinking_active
        == b[h].work_group_items[k].is_thinking_active by {
        if h == g && k == i {
        } else if h == g {
            assert(c[h].work_group_items[k] == b[h].work_group_items[k]);
        }
    }
}

proof fn lemma_update_status(b: Seq<RespView>, g: int, x: RespView)
    requires
        0 <= g < b.len(),
        x.kind == b[g].kind,
        x.work_group_active == b[g].work_group_active,
        x.work_group_items == b[g].work_group_items,
    ensures
        same_status(b, b.update(g, x)),
{
}

/// A block that is not an activity group, and has no entries, appended.
proof fn lemma_push_plain(s: StateView, t: StateView, x: RespView)
    requires
        groups_settled(s),
        t.blocks == s.blocks.push(x),
        !is_group(x),
        x.work_group_items.len() == 0,
        t.open == s.open,
    ensures
        groups_settled(t),
{
    assert forall|g: int, h: int|
        #![trigger t.blocks[g], t.blocks[h]]
        0 <= g < h < t.blocks.len() && is_active_group(t.blocks[g]) implies !is_group(t.blocks[h]) by {
        assert(t.blocks[g] == s.blocks[g]);
        if h < s.blocks.len() {
            assert(t.blocks[h] == s.blocks[h]);
        }
    }
    assert forall|g: int| 0 <= g < t.blocks.len() && #[trigger] is_active_group(t.blocks[g]) implies t.open by {
        assert(t.blocks[g] == s.blocks[g]);
    }
    assert forall|g: int, k: int|
        #![trigger t.blocks[g].work_group_items[k]]
        0 <= g < t.blocks.len() && 0 <= k < t.blocks[g].work_group_items.len()
            && t.blocks[g].work_group_items[k].is_thinking_active implies is_active_group(t.blocks[g])
            && t.blocks[g].work_group_items[k].kind == "thinking"@ by {
        assert(t.blocks[g] == s.blocks[g]);
    }
}

proof fn lemma_flush_settled(s: StateView)
    requires
        groups_settled(s),
    ensures
        groups_settled(flush_spec(s)),
        flush_spec(s).open == s.open,
{
    if !crate::text::all_ws(s.acc) {
        assert("text"@ != "work_group"@) by {
            reveal_strlit("text");
            reveal_strlit("work_group");
            assert("text"@.len() != "work_group"@.len());
        }
        lemma_push_plain(s, flush_spec(s), crate::main_content::markdown::resp_default("text"@, s.acc));
    }
}

/// What `last_group` finds: a group (an active one when asked), with none
/// of its sort after it; or none of its sort at all.
pub proof fn lemma_last_group_is_last(b: Seq<RespView>, active_only: bool)
    ensures
        match last_group(b, active_only) {
            Some(i) => 0 <= i < b.len() && is_group(b[i]) && (active_only ==> b[i].work_group_active)
                && forall|h: int|
                i < h < b.len() ==> !(is_group(#[trigger] b[h]) && (!active_only
                    || b[h].work_group_active)),
            None => forall|h: int|
                0 <= h < b.len() ==> !(is_group(#[trigger] b[h]) && (!active_only
                    || b[h].work_group_active)),
        },
    decreases b.len(),
{
    if b.len() > 0 {
        let d = b.drop_last();
        lemma_last_group_is_last(d, active_only);
        assert forall|h: int| 0 <= h < d.len() implies #[trigger] b[h] == d[h] by {}
    }
}

proof fn lemma_close_settled(s: StateView, e: u64)
    requires
        groups_settled(s),
    ensures
        groups_settled(close_spec(s, e)),
        !close_spec(s, e).open,
{
    let t = close_spec(s, e);
    lemma_last_group_is_last(s.blocks, true);
    lemma_last_group_is_last(s.blocks, false);
    let target = match last_group(s.blocks, true) {
        Some(i) => Some(i),
        None => last_group(s.blocks, false),
    };
    // No group stays active.
    assert forall|g: int| 0 <= g < t.blocks.len() implies !is_active_group(#[trigger] t.blocks[g]) by {
        if target != Some(g) {
            assert(t.blocks[g] == s.blocks[g]);
            if is_active_group(s.blocks[g]) {
                match last_group(s.blocks, true) {
                    Some(i) => {
                        if g < i {
                            assert(!is_group(s.blocks[i]));
                        }
                    },
                    None => {},
                }
            }
        }
    }
    // No entry stays in progress.
    assert forall|g: int, k: int|
        0 <= g < t.blocks.len() && 0 <= k < t.blocks[g].work_group_items.len()
            implies !(#[trigger] t.blocks[g].work_group_items[k]).is_thinking_active by {
        if target == Some(g) {
            let items = s.blocks[g].work_group_items;
            assert(t.blocks[g].work_group_items == settle(items));
            if items[k].is_thinking_active {
                assert(items[k].kind == "thinking"@);
            }
        } else {
            assert(t.blocks[g] == s.blocks[g]);
            assert(!is_active_group(t.blocks[g]));
        }
    }
}

proof fn lemma_ensure_settled(s: StateView, e: u64)
    requires
        groups_settled(s),
    ensures
        ({
            let (t, gi) = ensure_spec(s, e);
            &&& groups_settled(t)
            &&& 0 <= gi < t.blocks.len()
            &&& is_active_group(t.blocks[gi])
            &&& t.open
        }),
{
    let s1 = if !crate::text::all_ws(s.acc) && s.open {
        lemma_close_settled(s, e);
        lemma_flush_settled(close_spec(s, e));
        flush_spec(close_spec(s, e))
    } else {
        lemma_flush_settled(s);
        flush_spec(s)
    };
    assert(groups_settled(s1));
    let (t, gi) = ensure_spec(s, e);
    lemma_last_group_is_last(s1.blocks, false);
    match last_group(s1.blocks, false) {
        Some(i) if s1.open => {
            assert forall|g: int, h: int|
                #![trigger t.blocks[g], t.blocks[h]]
                0 <= g < h < t.blocks.len() && is_active_group(t.blocks[g]) implies !is_group(t.blocks[h]) by {
                if g != i {
                    assert(t.blocks[g] == s1.blocks[g]);
                    if g < i {
                        assert(!is_group(s1.blocks[i]));
                    }
                }
                if h != i {
                    assert(t.blocks[h] == s1.blocks[h]);
                }
            }
            assert forall|g: int, k: int|
                #![trigger t.blocks[g].work_group_items[k]]
                0 <= g < t.blocks.len() && 0 <= k < t.blocks[g].work_group_items.len()
                    && t.blocks[g].work_group_items[k].is_thinking_active implies is_active_group(t.blocks[g])
                    && t.blocks[g].work_group_items[k].kind == "thinking"@ by {
                assert(t.blocks[g].work_group_items == s1.blocks[g].work_group_items);
                assert(s1.blocks[g].work_group_items[k] == t.blocks[g].work_group_items[k]);
                if g != i {
                    assert(t.blocks[g] == s1.blocks[g]);
                }
            }
        },
        _ => {
            let n = s1.blocks.len() as int;
            assert(forall|g: int| 0 <= g < n ==> !is_active_group(#[trigger] s1.blocks[g])) by {
                assert forall|g: int| 0 <= g < n implies !is_active_group(#[trigger] s1.blocks[g]) by {
                    if is_active_group(s1.blocks[g]) {
                        assert(s1.open);
                    }
                }
            }
            assert forall|g: int, h: int|
                #![trigger t.blocks[g], t.blocks[h]]
                0 <= g < h < t.blocks.len() && is_active_group(t.blocks[g]) implies !is_group(t.blocks[h]) by {
                assert(t.blocks[g] == s1.blocks[g]);
            }
            assert forall|g: int, k: int|
                #![trigger t.blocks[g].work_group_items[k]]
                0 <= g < t.blocks.len() && 0 <= k < t.blocks[g].work_group_items.len()
                    && t.blocks[g].work_group_items[k].is_thinking_active implies is_active_group(t.blocks[g])
                    && t.blocks[g].work_group_items[k].kind == "thinking"@ by {
                if g < n {
                    assert(t.blocks[g] == s1.blocks[g]);
                    assert(!is_active_group(s1.blocks[g]));
                }
            }
        },
    }
}

/// An entry appended to group `gi`; it shows thinking in progress only as a
/// thinking entry of an active group.
proof fn lemma_push_entry_settled(s: StateView, t: StateView, gi: int, x: RespView)
    requires
        groups_settled(s),
        0 <= gi < s.blocks.len(),
        t.blocks == push_entry(s.blocks, gi, x),
        t.open == s.open,
        x.is_thinking_active ==> is_active_group(s.blocks[gi]) && x.kind == "thinking"@,
    ensures
        groups_settled(t),
{
    assert forall|g: int, h: int|
        #![trigger t.blocks[g], t.blocks[h]]
        0 <= g < h < t.blocks.len() && is_active_group(t.blocks[g]) implies !is_group(t.blocks[h]) by {
        assert(s.blocks[g].kind == t.blocks[g].kind);
        assert(s.blocks[h].kind == t.blocks[h].kind);
    }
    assert forall|g: int| 0 <= g < t.blocks.len() && #[trigger] is_active_group(t.blocks[g]) implies t.open by {
        assert(s.blocks[g].kind == t.blocks[g].kind);
        assert(s.blocks[g].work_group_active == t.blocks[g].work_group_active);
        assert(is_active_group(s.blocks[g]));
    }
    assert forall|g: int, k: int|
        #![trigger t.blocks[g].work_group_items[k]]
        0 <= g < t.blocks.len() && 0 <= k < t.blocks[g].work_group_items.len()
            && t.blocks[g].work_group_items[k].is_thinking_active implies is_active_group(t.blocks[g])
            && t.blocks[g].work_group_items[k].kind == "thinking"@ by {
        if g == gi && k == s.blocks[g].work_group_items.len() {
        } else if g == gi {
            assert(t.blocks[g].work_group_items[k] == s.blocks[g].work_group_items[k]);
        } else {
            assert(t.blocks[g] == s.blocks[g]);
        }
    }
}

proof fn lemma_thinking_settled(s: StateView, text: Seq<char>, e: u64)
    requires
        groups_settled(s),
    ensures
        groups_settled(thinking_spec(s, text, e)),
{
    lemma_ensure_settled(s, e);
    let (s1, gi) = ensure_spec(s, e);
    let t = thinking_spec(s, text, e);
    let items = s1.blocks[gi].work_group_items;
    if s1.in_thinking && items.len() > 0 && items.last().kind == "thinking"@ {
        let last = items.last();
        let x = RespView { thinking_text: last.thinking_text + text, ..last };
        assert(t.blocks == set_entry(s1.blocks, gi, items.len() - 1, x));
        lemma_set_entry_status(s1.blocks, gi, items.len() - 1, x);
        lemma_status_carry(s1, t);
    } else {
        assert(t.blocks == push_entry(s1.blocks, gi, thinking_item(text)));
        lemma_push_entry_settled(s1, t, gi, thinking_item(text));
    }
}

proof fn lemma_new_card_settled(s: StateView, key: Seq<char>, card: RespView, e: u64)
    requires
        groups_settled(s),
        !card.is_thinking_active,
    ensures
        groups_settled(new_card_spec(s, key, card, e)),
{
    let s0 = StateView { in_thinking: false, ..s };
    lemma_ensure_settled(s0, e);
    let (s1, gi) = ensure_spec(s0, e);
    lemma_push_entry_settled(s1, new_card_spec(s, key, card, e), gi, card);
}

/// A card edited in place keeps its kind and shows no thinking.
proof fn lemma_card_edit_settled(s: StateView, t: StateView, g: int, i: int, x: RespView)
    requires
        groups_settled(s),
        entry_exists(s.blocks, g, i),
        x.kind == s.blocks[g].work_group_items[i].kind,
        x.is_thinking_active == s.blocks[g].work_group_items[i].is_thinking_active,
        t.blocks == set_entry(s.blocks, g, i, x),
        t.open == s.open,
    ensures
        groups_settled(t),
{
    lemma_set_entry_status(s.blocks, g, i, x);
    lemma_status_carry(s, t);
}


/// Whatever session event arrives, only the last activity group can be
/// active, only while a group is open, and thinking shows as in progress
/// only inside that group.
pub proof fn lemma_event_keeps_groups_settled(s: StateView, ev: SessionUpdate, e: u64)
    requires
        groups_settled(s),
    ensures
        groups_settled(next_state(s, ev, e)),
{
    let t = next_state(s, ev, e);
    match ev {
        SessionUpdate::TextDelta { text } => {
            lemma_status_carry(s, t);
        },
        SessionUpdate::ThinkingDelta { text } => {
            lemma_thinking_settled(s, text@, e);
        },
        SessionUpdate::ToolCallStart { call_id, name } => {
            let known = match stream_id(call_id@) {
                Some(sk) => match lookup(s.tools, sk) {
                    Some(gi) => Some((sk, gi)),
                    None => None,
                },
                None => None,
            };
            match known {
                Some((sk, (g, i))) => {
                    if entry_exists(s.blocks, g as int, i as int) {
                        let c = s.blocks[g as int].work_group_items[i as int];
                        lemma_card_edit_settled(s, t, g as int, i as int, RespView {
                            tool_call_id: call_id@,
                            tool_name: name@,
                            tool_title: friendly_title(name@, seq![], false),
                            ..c
                        });
                    } else {
                        lemma_status_carry(s, t);
                    }
                },
                None => {
                    lemma_new_card_settled(s, call_id@, running_card(
                        name@,
                        friendly_title(name@, seq![], false),
                        call_id@,
                    ), e);
                },
            }
        },
        SessionUpdate::ToolCallArgsReady { call_id, name, args_json } => {
            match lookup(s.tools, call_id@) {
                Some((g, i)) => {
                    if entry_exists(s.blocks, g as int, i as int) {
                        let c = s.blocks[g as int].work_group_items[i as int];
                        lemma_card_edit_settled(s, t, g as int, i as int, overlay(
                            RespView {
                                tool_args: shown_args(args_json@),
                                tool_title: friendly_title(name@, args_json@, false),
                                ..c
                            },
                            name@,
                            args_json@,
                        ));
                    } else {
                        lemma_status_carry(s, t);
                    }
                },
                None => {
                    lemma_status_carry(s, t);
                },
            }
        },
        SessionUpdate::ToolCallResult { call_id, name, is_error, content_json } => {
            let title = friendly_title(name@, seq![], true);
            match lookup(s.tools, call_id@) {
                Some((g, i)) => {
                    if entry_exists(s.blocks, g as int, i as int) {
                        let c = s.blocks[g as int].work_group_items[i as int];
                        lemma_card_edit_settled(s, t, g as int, i as int, overlay(
                            RespView {
                                tool_status: status_text(is_error),
                                tool_result: shown_result(content_json@),
                                tool_title: title,
                                ..c
                            },
                            name@,
                            c.tool_args,
                        ));
                    } else {
                        lemma_status_carry(s, t);
                    }
                },
                None => {
                    lemma_new_card_settled(s, call_id@, overlay(
                        RespView {
                            tool_name: name@,
                            tool_title: title,
                            tool_status: status_text(is_error),
                            tool_result: shown_result(content_json@),
                            tool_call_id: call_id@,
                            ..resp_default("tool"@, seq![])
                        },
                        name@,
                        seq![],
                    ), e);
                },
            }
        },
        SessionUpdate::ApprovalRequired { id, tool, path, reason, args_json } => {
            lemma_flush_settled(s);
            let s1 = StateView { in_thinking: false, ..flush_spec(s) };
            assert("permission"@ != "work_group"@) by {
                reveal_strlit("permission");
                reveal_strlit("work_group");
                assert("permission"@[0] != "work_group"@[0]);
            }
            lemma_push_plain(s1, t, prompt(id@, tool@, opt_path(path), reason@, args_json@));
        },
        SessionUpdate::ApprovalGranted { id } => {
            match lookup(s.perms, id@) {
                Some(idx) => {
                    if idx < s.blocks.len() {
                        lemma_update_status(s.blocks, idx as int, set_status(s.blocks[idx as int], "approved"@));
                    }
                },
                None => {},
            }
            lemma_status_carry(s, t);
        },
        SessionUpdate::PermissionDenied { .. } => {
            lemma_last_pending(s.blocks);
            match last_pending(s.blocks) {
                Some(i) => {
                    lemma_update_status(s.blocks, i, set_status(s.blocks[i], "denied"@));
                },
                None => {},
            }
            lemma_status_carry(s, t);
        },
        _ => {
            lemma_status_carry(s, t);
        },
    }
}

/// Ending the turn leaves no activity group active, no thinking in
/// progress, no pending text and no open group.
pub proof fn lemma_finalize_settles_groups(s: StateView, e: u64)
    requires
        groups_settled(s),
    ensures
        ({
            let t = finalize_spec(s, e);
            &&& !t.open && !t.in_thinking && t.acc == Seq::<char>::empty()
            &&& forall|g: int| 0 <= g < t.blocks.len() ==> !(#[trigger] t.blocks[g]).work_group_active
                || !is_group(t.blocks[g])
            &&& forall|g: int, k: int|
                0 <= g < t.blocks.len() && 0 <= k < t.blocks[g].work_group_items.len()
                    ==> !(#[trigger] t.blocks[g].work_group_items[k]).is_thinking_active
        }),
{
    let s0 = StateView { in_thinking: false, ..s };
    let s1 = if s0.open {
        lemma_close_settled(s0, e);
        close_spec(s0, e)
    } else {
        s0
    };
    lemma_flush_settled(s1);
    let t = finalize_spec(s, e);
    assert forall|g: int| 0 <= g < t.blocks.len() implies !(#[trigger] t.blocks[g]).work_group_active
        || !is_group(t.blocks[g]) by {
        if is_active_group(t.blocks[g]) {
            assert(t.open);
        }
    }
    assert forall|g: int, k: int|
        0 <= g < t.blocks.len() && 0 <= k < t.blocks[g].work_group_items.len()
            implies !(#[trigger] t.blocks[g].work_group_items[k]).is_thinking_active by {
        if t.blocks[g].work_group_items[k].is_thinking_active {
            assert(is_active_group(t.blocks[g]));
            assert(t.open);
        }
    }
}

// ---------------------------------------------------------------------------
// Tool call ids point at tool cards
// ---------------------------------------------------------------------------

/// A fresh turn has no active group, no thinking in progress and no tool
/// call ids, so both shapes hold from the start.
pub proof fn lemma_fresh_turn_shape(auto_collapse: bool)
    ensures
        groups_settled(fresh_state(auto_collapse)),
        ids_on_cards(fresh_state(auto_collapse)),
{
}

/// Every tool call id points at a tool card inside an activity group.
pub open spec fn ids_on_cards(s: StateView) -> bool {
    forall|x: (Seq<char>, (usize, usize))| #[trigger]
        s.tools.contains(x) ==> {
            &&& entry_exists(s.blocks, x.1.0 as int, x.1.1 as int)
            &&& is_group(s.blocks[x.1.0 as int])
            &&& s.blocks[x.1.0 as int].work_group_items[x.1.1 as int].kind == "tool"@
        }
}

/// `b` keeps the blocks of `a` with their kinds, and their entries with
/// their kinds.
pub open spec fn keeps_kinds(a: Seq<RespView>, b: Seq<RespView>) -> bool {
    &&& a.len() <= b.len()
    &&& forall|g: int|
        #![trigger b[g]]
        0 <= g < a.len() ==> b[g].kind == a[g].kind && a[g].work_group_items.len()
            <= b[g].work_group_items.len()
    &&& forall|g: int, k: int|
        #![trigger b[g].work_group_items[k]]
        0 <= g < a.len() && 0 <= k < a[g].work_group_items.len() ==> b[g].work_group_items[k].kind
            == a[g].work_group_items[k].kind
}

proof fn lemma_kinds_trans(a: Seq<RespView>, b: Seq<RespView>, c: Seq<RespView>)
    requires
        keeps_kinds(a, b),
        keeps_kinds(b, c),
    ensures
        keeps_kinds(a, c),
{
    assert forall|g: int| 0 <= g < a.len() implies #[trigger] c[g].kind == a[g].kind
        && a[g].work_group_items.len() <= c[g].work_group_items.len() by {
        assert(b[g].kind == a[g].kind);
    }
    assert forall|g: int, k: int|
        0 <= g < a.len() && 0 <= k < a[g].work_group_items.len() implies #[trigger] c[g].work_group_items[k].kind
        == a[g].work_group_items[k].kind by {
        assert(b[g].work_group_items[k].kind == a[g].work_group_items[k].kind);
        assert(a[g].work_group_items.len() <= b[g].work_group_items.len());
    }
}

proof fn lemma_cards_carry(s: StateView, t: StateView)
    requires
        ids_on_cards(s),
        keeps_kinds(s.blocks, t.blocks),
        t.tools == s.tools,
    ensures
        ids_on_cards(t),
{
    assert forall|x: (Seq<char>, (usize, usize))| #[trigger] t.tools.contains(x) implies {
        &&& entry_exists(t.blocks, x.1.0 as int, x.1.1 as int)
        &&& is_group(t.blocks[x.1.0 as int])
        &&& t.blocks[x.1.0 as int].work_group_items[x.1.1 as int].kind == "tool"@
    } by {
        assert(s.tools.contains(x));
        let g = x.1.0 as int;
        let k = x.1.1 as int;
        assert(t.blocks[g].kind == s.blocks[g].kind);
        assert(t.blocks[g].work_group_items[k].kind == s.blocks[g].work_group_items[k].kind);
    }
}

proof fn lemma_set_entry_kinds(b: Seq<RespView>, g: int, i: int, x: RespView)
    requires
        entry_exists(b, g, i),
        x.kind == b[g].work_group_items[i].kind,
    ensures
        keeps_kinds(b, set_entry(b, g, i, x)),
{
    let c = set_entry(b, g, i, x);
    assert forall|h: int, k: int|
        0 <= h < b.len() && 0 <= k < b[h].work_group_items.len() implies #[trigger] c[h].work_group_items[k].kind
        == b[h].work_group_items[k].kind by {
        if h == g && k != i {
            assert(c[h].work_group_items[k] == b[h].work_group_items[k]);
        }
    }
}

proof fn lemma_push_entry_kinds(b: Seq<RespView>, g: int, x: RespView)
    requires
        0 <= g < b.len(),
    ensures
        keeps_kinds(b, push_entry(b, g, x)),
{
    let c = push_entry(b, g, x);
    assert forall|h: int, k: int|
        0 <= h < b.len() && 0 <= k < b[h].work_group_items.len() implies #[trigger] c[h].work_group_items[k].kind
        == b[h].work_group_items[k].kind by {
        if h == g {
            assert(c[h].work_group_items[k] == b[h].work_group_items[k]);
        }
    }
}

proof fn lemma_push_kinds(b: Seq<RespView>, x: RespView)
    ensures
        keeps_kinds(b, b.push(x)),
{
    assert forall|h: int, k: int|
        0 <= h < b.len() && 0 <= k < b[h].work_group_items.len() implies #[trigger] b.push(x)[h].work_group_items[k].kind
        == b[h].work_group_items[k].kind by {
        assert(b.push(x)[h] == b[h]);
    }
}

proof fn lemma_flush_kinds(s: StateView)
    ensures
        keeps_kinds(s.blocks, flush_spec(s).blocks),
        flush_spec(s).tools == s.tools,
{
    lemma_push_kinds(s.blocks, crate::main_content::markdown::resp_default("text"@, s.acc));
}

proof fn lemma_close_kinds(s: StateView, e: u64)
    ensures
        keeps_kinds(s.blocks, close_spec(s, e).blocks),
        close_spec(s, e).tools == s.tools,
{
    lemma_last_group_is_last(s.blocks, true);
    lemma_last_group_is_last(s.blocks, false);
    let t = close_spec(s, e);
    let target = match last_group(s.blocks, true) {
        Some(i) => Some(i),
        None => last_group(s.blocks, false),
    };
    assert forall|g: int, k: int|
        0 <= g < s.blocks.len() && 0 <= k < s.blocks[g].work_group_items.len() implies #[trigger] t.blocks[g].work_group_items[k].kind
        == s.blocks[g].work_group_items[k].kind by {
        if target == Some(g) {
            assert(t.blocks[g].work_group_items == settle(s.blocks[g].work_group_items));
        }
    }
}

proof fn lemma_ensure_kinds(s: StateView, e: u64)
    ensures
        ({
            let (t, gi) = ensure_spec(s, e);
            &&& keeps_kinds(s.blocks, t.blocks)
            &&& 0 <= gi < t.blocks.len()
            &&& is_group(t.blocks[gi])
            &&& t.tools == s.tools
        }),
{
    let s1 = if !crate::text::all_ws(s.acc) && s.open {
        lemma_close_kinds(s, e);
        lemma_flush_kinds(close_spec(s, e));
        lemma_kinds_trans(s.blocks, close_spec(s, e).blocks, flush_spec(close_spec(s, e)).blocks);
        flush_spec(close_spec(s, e))
    } else {
        lemma_flush_kinds(s);
        flush_spec(s)
    };
    let (t, gi) = ensure_spec(s, e);
    lemma_last_group_is_last(s1.blocks, false);
    match last_group(s1.blocks, false) {
        Some(i) if s1.open => {
            assert forall|g: int, k: int|
                0 <= g < s1.blocks.len() && 0 <= k < s1.blocks[g].work_group_items.len() implies #[trigger] t.blocks[g].work_group_items[k].kind
                == s1.blocks[g].work_group_items[k].kind by {
                assert(t.blocks[g].work_group_items == s1.blocks[g].work_group_items);
            }
            assert(keeps_kinds(s1.blocks, t.blocks));
        },
        _ => {
            lemma_push_kinds(s1.blocks, crate::main_content::reasoning::new_group(s1.auto_collapse));
        },
    }
    lemma_kinds_trans(s.blocks, s1.blocks, t.blocks);
}

proof fn lemma_thinking_kinds(s: StateView, text: Seq<char>, e: u64)
    ensures
        keeps_kinds(s.blocks, thinking_spec(s, text, e).blocks),
        thinking_spec(s, text, e).tools == s.tools,
{
    lemma_ensure_kinds(s, e);
    let (s1, gi) = ensure_spec(s, e);
    let t = thinking_spec(s, text, e);
    let items = s1.blocks[gi].work_group_items;
    if s1.in_thinking && items.len() > 0 && items.last().kind == "thinking"@ {
        let last = items.last();
        let x = RespView { thinking_text: last.thinking_text + text, ..last };
        assert(t.blocks == set_entry(s1.blocks, gi, items.len() - 1, x));
        lemma_set_entry_kinds(s1.blocks, gi, items.len() - 1, x);
    } else {
        assert(t.blocks == push_entry(s1.blocks, gi, thinking_item(text)));
        lemma_push_entry_kinds(s1.blocks, gi, thinking_item(text));
    }
    lemma_kinds_trans(s.blocks, s1.blocks, t.blocks);
}

proof fn lemma_new_card_on_cards(s: StateView, key: Seq<char>, card: RespView, e: u64)
    requires
        ids_on_cards(s),
        sizes_fit(s),
        card.kind == "tool"@,
    ensures
        ids_on_cards(new_card_spec(s, key, card, e)),
{
    let s0 = StateView { in_thinking: false, ..s };
    lemma_ensure_kinds(s0, e);
    lemma_ensure_shape(s0, e);
    let (s1, gi) = ensure_spec(s0, e);
    lemma_cards_carry(s0, s1);
    lemma_fit_carry(s0, s1, 2);
    let ii = s1.blocks[gi].work_group_items.len();
    assert(s1.blocks[gi].work_group_items.len() + 1 <= usize::MAX);
    let t = new_card_spec(s, key, card, e);
    lemma_push_entry_kinds(s1.blocks, gi, card);
    lemma_insert_entries(s1.tools, key, (gi as usize, ii as usize));
    assert forall|x: (Seq<char>, (usize, usize))| #[trigger] t.tools.contains(x) implies {
        &&& entry_exists(t.blocks, x.1.0 as int, x.1.1 as int)
        &&& is_group(t.blocks[x.1.0 as int])
        &&& t.blocks[x.1.0 as int].work_group_items[x.1.1 as int].kind == "tool"@
    } by {
        if s1.tools.contains(x) {
            let g = x.1.0 as int;
            let k = x.1.1 as int;
            assert(t.blocks[g].kind == s1.blocks[g].kind);
            assert(t.blocks[g].work_group_items[k].kind == s1.blocks[g].work_group_items[k].kind);
        } else {
            assert(x == (key, (gi as usize, ii as usize)));
            assert(t.blocks[gi].work_group_items[ii as int] == card);
        }
    }
}

/// A card edited in place under its id keeps every id on a tool card.
proof fn lemma_card_edit_on_cards(s: StateView, t: StateView, g: int, i: int, x: RespView)
    requires
        ids_on_cards(s),
        entry_exists(s.blocks, g, i),
        x.kind == s.blocks[g].work_group_items[i].kind,
        t.blocks == set_entry(s.blocks, g, i, x),
        t.tools == s.tools,
    ensures
        ids_on_cards(t),
{
    lemma_set_entry_kinds(s.blocks, g, i, x);
    lemma_cards_carry(s, t);
}

/// Whatever session event arrives, every tool call id keeps pointing at a
/// tool card inside an activity group (while block and entry counts stay
/// clear of the top of `usize`).
pub proof fn lemma_event_keeps_ids_on_cards(s: StateView, ev: SessionUpdate, e: u64)
    requires
        ids_on_cards(s),
        sizes_fit(s),
    ensures
        ids_on_cards(next_state(s, ev, e)),
{
    let t = next_state(s, ev, e);
    match ev {
        SessionUpdate::TextDelta { text } => {
            lemma_cards_carry(s, t);
        },
        SessionUpdate::ThinkingDelta { text } => {
            lemma_thinking_kinds(s, text@, e);
            lemma_cards_carry(s, t);
        },
        SessionUpdate::ToolCallStart { call_id, name } => {
            let known = match stream_id(call_id@) {
                Some(sk) => match lookup(s.tools, sk) {
                    Some(gi) => Some((sk, gi)),
                    None => None,
                },
                None => None,
            };
            match known {
                Some((sk, (g, i))) => {
                    lemma_lookup_entry(s.tools, sk);
                    assert(s.tools.contains((sk, (g, i))));
                    let c = s.blocks[g as int].work_group_items[i as int];
                    let x = RespView {
                        tool_call_id: call_id@,
                        tool_name: name@,
                        tool_title: friendly_title(name@, seq![], false),
                        ..c
                    };
                    lemma_set_entry_kinds(s.blocks, g as int, i as int, x);
                    lemma_remove_entries(s.tools, sk);
                    lemma_insert_entries(remove_key(s.tools, sk), call_id@, (g, i));
                    assert forall|y: (Seq<char>, (usize, usize))| #[trigger] t.tools.contains(y) implies {
                        &&& entry_exists(t.blocks, y.1.0 as int, y.1.1 as int)
                        &&& is_group(t.blocks[y.1.0 as int])
                        &&& t.blocks[y.1.0 as int].work_group_items[y.1.1 as int].kind == "tool"@
                    } by {
                        let h = y.1.0 as int;
                        let k = y.1.1 as int;
                        if remove_key(s.tools, sk).contains(y) {
                            assert(s.tools.contains(y));
                        } else {
                            assert(y == (call_id@, (g, i)));
                        }
                        assert(t.blocks[h].kind == s.blocks[h].kind);
                        assert(t.blocks[h].work_group_items[k].kind == s.blocks[h].work_group_items[k].kind);
                    }
                },
                None => {
                    lemma_new_card_on_cards(s, call_id@, running_card(
                        name@,
                        friendly_title(name@, seq![], false),
                        call_id@,
                    ), e);
                },
            }
        },
        SessionUpdate::ToolCallArgsReady { call_id, name, args_json } => {
            match lookup(s.tools, call_id@) {
                Some((g, i)) => {
                    if entry_exists(s.blocks, g as int, i as int) {
                        let c = s.blocks[g as int].work_group_items[i as int];
                        lemma_card_edit_on_cards(s, t, g as int, i as int, overlay(
                            RespView {
                                tool_args: shown_args(args_json@),
                                tool_title: friendly_title(name@, args_json@, false),
                                ..c
                            },
                            name@,
                            args_json@,
                        ));
                    } else {
                        lemma_cards_carry(s, t);
                    }
                },
                None => {
                    lemma_cards_carry(s, t);
                },
            }
        },
        SessionUpdate::ToolCallResult { call_id, name, is_error, content_json } => {
            let title = friendly_title(name@, seq![], true);
            match lookup(s.tools, call_id@) {
                Some((g, i)) => {
                    if entry_exists(s.blocks, g as int, i as int) {
                        let c = s.blocks[g as int].work_group_items[i as int];
                        lemma_card_edit_on_cards(s, t, g as int, i as int, overlay(
                            RespView {
                                tool_status: status_text(is_error),
                                tool_result: shown_result(content_json@),
                                tool_title: title,
                                ..c
                            },
                            name@,
                            c.tool_args,
                        ));
                    } else {
                        lemma_cards_carry(s, t);
                    }
                },
                None => {
                    lemma_new_card_on_cards(s, call_id@, overlay(
                        RespView {
                            tool_name: name@,
                            tool_title: title,
                            tool_status: status_text(is_error),
                            tool_result: shown_result(content_json@),
                            tool_call_id: call_id@,
                            ..resp_default("tool"@, seq![])
                        },
                        name@,
                        seq![],
                    ), e);
                },
            }
        },
        SessionUpdate::ApprovalRequired { id, tool, path, reason, args_json } => {
            lemma_flush_kinds(s);
            let s1 = StateView { in_thinking: false, ..flush_spec(s) };
            lemma_push_kinds(s1.blocks, prompt(id@, tool@, opt_path(path), reason@, args_json@));
            lemma_kinds_trans(s.blocks, s1.blocks, t.blocks);
            lemma_cards_carry(s, t);
        },
        SessionUpdate::ApprovalGranted { id } => {
            match lookup(s.perms, id@) {
                Some(idx) => {
                    if idx < s.blocks.len() {
                        lemma_update_status(s.blocks, idx as int, set_status(s.blocks[idx as int], "approved"@));
                    }
                },
                None => {},
            }
            lemma_cards_carry(s, t);
        },
        SessionUpdate::PermissionDenied { .. } => {
            lemma_last_pending(s.blocks);
            match last_pending(s.blocks) {
                Some(i) => {
                    lemma_update_status(s.blocks, i, set_status(s.blocks[i], "denied"@));
                },
                None => {},
            }
            lemma_cards_carry(s, t);
        },
        _ => {
            lemma_cards_carry(s, t);
        },
    }
}

/// A tool call detected while streaming keeps both shapes of the turn: its
/// card is a tool card, shows no thinking, and lands in the open group.
pub proof fn lemma_detected_keeps_shape(s: StateView, stream_call_id: Seq<char>, name: Seq<char>, e: u64)
    requires
        groups_settled(s),
        ids_on_cards(s),
        sizes_fit(s),
    ensures
        groups_settled(detected_spec(s, stream_call_id, name, e)),
        ids_on_cards(detected_spec(s, stream_call_id, name, e)),
{
    let card = running_card(name, friendly_title(name, seq![], false), seq![]);
    lemma_new_card_settled(s, stream_call_id, card, e);
    lemma_new_card_on_cards(s, stream_call_id, card, e);
}

/// The turn after the events `evs`, the `i`-th read with the clock at
/// `clocks[i]`.
pub open spec fn run_events(s: StateView, evs: Seq<SessionUpdate>, clocks: Seq<u64>) -> StateView
    decreases evs.len(),
{
    if evs.len() == 0 || clocks.len() != evs.len() {
        s
    } else {
        next_state(run_events(s, evs.drop_last(), clocks.drop_last()), evs.last(), clocks.last())
    }
}

/// Whatever events a fresh turn receives, only its last activity group can
/// be active, only while a group is open, and thinking shows as in progress
/// only inside that group; ending it then leaves no group active and no
/// thinking in progress.
pub proof fn lemma_every_turn_settles(
    auto_collapse: bool,
    evs: Seq<SessionUpdate>,
    clocks: Seq<u64>,
    e: u64,
)
    requires
        clocks.len() == evs.len(),
    ensures
        groups_settled(run_events(fresh_state(auto_collapse), evs, clocks)),
        ({
            let t = finalize_spec(run_events(fresh_state(auto_collapse), evs, clocks), e);
            &&& forall|g: int| 0 <= g < t.blocks.len() ==> !(#[trigger] t.blocks[g]).work_group_active
                || !is_group(t.blocks[g])
            &&& forall|g: int, k: int|
                0 <= g < t.blocks.len() && 0 <= k < t.blocks[g].work_group_items.len()
                    ==> !(#[trigger] t.blocks[g].work_group_items[k]).is_thinking_active
        }),
    decreases evs.len(),
{
    let s0 = fresh_state(auto_collapse);
    if evs.len() > 0 {
        lemma_every_turn_settles(auto_collapse, evs.drop_last(), clocks.drop_last(), e);
        lemma_event_keeps_groups_settled(
            run_events(s0, evs.drop_last(), clocks.drop_last()),
            evs.last(),
            clocks.last(),
        );
    }
    lemma_finalize_settles_groups(run_events(s0, evs, clocks), e);
}

} // verus!
