//! Tool cards inside activity groups.
//!
//! A tool call is announced while it streams (under a provisional id),
//! then started under its provider id, given its arguments, and finally its
//! result; each step updates the card that the call id points to.

use crate::main_content::assistant_messages::assoc::lookup;
use crate::main_content::keyed::{insert_key, key_get, key_insert, key_remove, remove_key};
use crate::main_content::markdown::{resp_default, resp_view, ParsedMarkdownItem, RespView};
use crate::main_content::reasoning::{
    ensure_spec, entry_exists, reuses_group, lemma_set_entry_twice, push_entry, set_entry, with_blocks,
    ResponseState, StateView,
};
use crate::main_content::tools::diff::{apply_diff_overlay, first_present, member_text, overlay};
use crate::main_content::tools::json::{
    json_member, json_member_of, json_pretty, json_pretty_of, JsonMember, MemberView,
};
use crate::text::{
    chars_of, owned, push_all, push_str_chars, split_chars, split_on, str_eq, string_of, vv,
};
use vstd::prelude::*;

verus! {

// ---------------------------------------------------------------------------
// Titles
// ---------------------------------------------------------------------------

/// The last `/`- or `\`-separated segment of a path.
pub open spec fn last_segment(p: Seq<char>) -> Seq<char>
    decreases p.len(),
{
    if p.len() == 0 {
        p
    } else if p.last() == '/' || p.last() == '\\' {
        seq![]
    } else {
        last_segment(p.drop_last()).push(p.last())
    }
}

/// The path a tool's arguments name (`path`, else `paths`, else `dir`), as text.
pub open spec fn args_path(args: Seq<char>) -> Seq<char> {
    member_text(
        first_present(
            first_present(json_member(args, "path"@), json_member(args, "paths"@)),
            json_member(args, "dir"@),
        ),
    )
}

/// The file name shown in a title, or `dflt` when the arguments name none.
pub open spec fn shown_name(args: Seq<char>, dflt: Seq<char>) -> Seq<char> {
    let d = last_segment(args_path(args));
    if d.len() == 0 {
        dflt
    } else {
        d
    }
}

/// The title of a tool card: what the tool does (or did, once completed),
/// and to which file or directory.
pub open spec fn friendly_title(name: Seq<char>, args: Seq<char>, done: bool) -> Seq<char> {
    if name == "write"@ || name == "edit"@ || name == "append"@ {
        (if done {
            "Edited "@
        } else {
            "Editing "@
        }) + shown_name(args, "file"@)
    } else if name == "read"@ {
        (if done {
            "Read "@
        } else {
            "Reading "@
        }) + shown_name(args, "file"@)
    } else if name == "ls"@ || name == "list_dir"@ {
        (if done {
            "Listed "@
        } else {
            "Listing "@
        }) + shown_name(args, "directory"@)
    } else if name == "bash"@ || name == "run_command"@ {
        if done {
            "Executed command"@
        } else {
            "Executing command"@
        }
    } else {
        (if done {
            "Ran "@
        } else {
            "Running "@
        }) + name
    }
}

fn last_path_segment(p: &Vec<char>) -> (r: Vec<char>)
    ensures
        r@ == last_segment(p@),
{
    let mut i: usize = p.len();
    assert(p@.take(p.len() as int) =~= p@);
    assert(p@.skip(p.len() as int) =~= seq![]);
    assert(p@ + seq![] =~= p@);
    while i > 0 && p[i - 1] != '/' && p[i - 1] != '\\'
        invariant
            i <= p.len(),
            last_segment(p@) == last_segment(p@.take(i as int)) + p@.skip(i as int),
        decreases i,
    {
        proof {
            assert(p@.take(i as int).drop_last() =~= p@.take(i - 1));
            assert(p@.skip(i - 1) =~= seq![p@[i - 1]] + p@.skip(i as int));
            assert(last_segment(p@.take(i - 1)).push(p@[i - 1]) + p@.skip(i as int) =~= last_segment(
                p@.take(i - 1),
            ) + p@.skip(i - 1));
        }
        i -= 1;
    }
    proof {
        if i > 0 {
            assert(p@.take(i as int).last() == p@[i - 1]);
        }
        assert(p@.take(p.len() as int) =~= p@);
    }
    let mut r: Vec<char> = Vec::new();
    let mut k: usize = i;
    while k < p.len()
        invariant
            i <= k <= p.len(),
            r@ == p@.subrange(i as int, k as int),
        decreases p.len() - k,
    {
        r.push(p[k]);
        k += 1;
        assert(r@ =~= p@.subrange(i as int, k as int));
    }
    assert(r@ =~= p@.skip(i as int));
    assert(last_segment(p@.take(i as int)) =~= seq![]);
    r
}

fn member_chars(m: JsonMember) -> (r: Vec<char>)
    ensures
        r@ == member_text(m@),
{
    match m {
        JsonMember::Text(s) => chars_of(s.as_str()),
        _ => Vec::new(),
    }
}

/// Whether `name` is one of the tools titled by what they do to a file or
/// directory, or a command.
pub open spec fn known_tool(name: Seq<char>) -> bool {
    name == "write"@ || name == "edit"@ || name == "append"@ || name == "read"@ || name == "ls"@
        || name == "list_dir"@ || name == "bash"@ || name == "run_command"@
}

/// File tools are titled by the file they work on, directory tools by the
/// directory, command tools by the command; each in the past once done.
pub proof fn lemma_known_tool_titles(name: Seq<char>, args: Seq<char>)
    ensures
        (name == "write"@ || name == "edit"@ || name == "append"@) ==> friendly_title(name, args, true)
            == "Edited "@ + shown_name(args, "file"@) && friendly_title(name, args, false) == "Editing "@
            + shown_name(args, "file"@),
        name == "read"@ ==> friendly_title(name, args, true) == "Read "@ + shown_name(args, "file"@)
            && friendly_title(name, args, false) == "Reading "@ + shown_name(args, "file"@),
        (name == "ls"@ || name == "list_dir"@) ==> friendly_title(name, args, true) == "Listed "@
            + shown_name(args, "directory"@) && friendly_title(name, args, false) == "Listing "@
            + shown_name(args, "directory"@),
        (name == "bash"@ || name == "run_command"@) ==> friendly_title(name, args, true)
            == "Executed command"@ && friendly_title(name, args, false) == "Executing command"@,
{
    reveal_strlit("write");
    reveal_strlit("edit");
    reveal_strlit("append");
    reveal_strlit("read");
    reveal_strlit("ls");
    reveal_strlit("list_dir");
    reveal_strlit("bash");
    reveal_strlit("run_command");
    assert("read"@[0] != "write"@[0] && "read"@[0] != "edit"@[0] && "read"@[0] != "append"@[0]);
    assert("ls"@[0] != "write"@[0] && "ls"@[0] != "edit"@[0] && "ls"@[0] != "append"@[0] && "ls"@[0]
        != "read"@[0]);
    assert("list_dir"@[0] != "write"@[0] && "list_dir"@[0] != "edit"@[0] && "list_dir"@[0]
        != "append"@[0] && "list_dir"@[0] != "read"@[0]);
    assert("bash"@[0] != "write"@[0] && "bash"@[0] != "edit"@[0] && "bash"@[0] != "append"@[0]
        && "bash"@[0] != "read"@[0] && "bash"@[0] != "ls"@[0] && "bash"@[0] != "list_dir"@[0]);
    assert("run_command"@[0] != "write"@[0] && "run_command"@[0] != "edit"@[0] && "run_command"@[0]
        != "append"@[0] && "run_command"@.len() != "read"@.len() && "run_command"@[0] != "ls"@[0]
        && "run_command"@[0] != "list_dir"@[0]);
}

/// Any other tool is titled "Running <name>" while it runs and
/// "Ran <name>" once completed, whatever its arguments.
pub proof fn lemma_other_tool_titles(name: Seq<char>, args: Seq<char>)
    requires
        !known_tool(name),
    ensures
        friendly_title(name, args, true) == "Ran "@ + name,
        friendly_title(name, args, false) == "Running "@ + name,
{
}

/// A completed card's title always differs from the same card's title
/// while it runs.
pub proof fn lemma_done_title_differs(name: Seq<char>, args: Seq<char>)
    ensures
        friendly_title(name, args, true) != friendly_title(name, args, false),
{
    let done = friendly_title(name, args, true);
    let running = friendly_title(name, args, false);
    reveal_strlit("Edited ");
    reveal_strlit("Editing ");
    reveal_strlit("Read ");
    reveal_strlit("Reading ");
    reveal_strlit("Listed ");
    reveal_strlit("Listing ");
    reveal_strlit("Executed command");
    reveal_strlit("Executing command");
    reveal_strlit("Ran ");
    reveal_strlit("Running ");
    let d = shown_name(args, "file"@);
    let dd = shown_name(args, "directory"@);
    if name == "write"@ || name == "edit"@ || name == "append"@ {
        assert(done[4] == ("Edited "@ + d)[4]);
        assert(running[4] == ("Editing "@ + d)[4]);
        assert(done[4] != running[4]);
    } else if name == "read"@ {
        assert(done[4] == ("Read "@ + d)[4]);
        assert(running[4] == ("Reading "@ + d)[4]);
        assert(done[4] != running[4]);
    } else if name == "ls"@ || name == "list_dir"@ {
        assert(done[4] == ("Listed "@ + dd)[4]);
        assert(running[4] == ("Listing "@ + dd)[4]);
        assert(done[4] != running[4]);
    } else if name == "bash"@ || name == "run_command"@ {
        assert(done[6] != running[6]);
    } else {
        assert(done[1] == ("Ran "@ + name)[1]);
        assert(running[1] == ("Running "@ + name)[1]);
        assert(done[1] != running[1]);
    }
}

/// The title shown on a tool card.
pub fn get_tool_friendly_title(name: &str, args_json: &str, is_completed: bool) -> (r: String)
    ensures
        r@ == friendly_title(name@, args_json@, is_completed),
{
    let m1 = json_member_of(args_json, "path");
    let m2 = match m1 {
        JsonMember::Missing => json_member_of(args_json, "paths"),
        other => other,
    };
    let m3 = match m2 {
        JsonMember::Missing => json_member_of(args_json, "dir"),
        other => other,
    };
    let path = member_chars(m3);
    let display = last_path_segment(&path);
    let (verb, dflt): (&str, &str) = if str_eq(name, "write") || str_eq(name, "edit") || str_eq(
        name,
        "append",
    ) {
        (
            if is_completed {
                "Edited "
            } else {
                "Editing "
            },
            "file",
        )
    } else if str_eq(name, "read") {
        (
            if is_completed {
                "Read "
            } else {
                "Reading "
            },
            "file",
        )
    } else if str_eq(name, "ls") || str_eq(name, "list_dir") {
        (
            if is_completed {
                "Listed "
            } else {
                "Listing "
            },
            "directory",
        )
    } else if str_eq(name, "bash") || str_eq(name, "run_command") {
        return owned(
            if is_completed {
                "Executed command"
            } else {
                "Executing command"
            },
        );
    } else {
        let mut v = chars_of(
            if is_completed {
                "Ran "
            } else {
                "Running "
            },
        );
        push_str_chars(&mut v, name);
        return string_of(v.as_slice());
    };
    let mut v = chars_of(verb);
    if display.len() == 0 {
        push_str_chars(&mut v, dflt);
    } else {
        push_all(&mut v, &display);
    }
    string_of(v.as_slice())
}

// ---------------------------------------------------------------------------
// Call ids
// ---------------------------------------------------------------------------

/// The streaming id a provider call id corresponds to: its last two
/// `-`-separated parts, when it has at least three.
pub open spec fn stream_id(call_id: Seq<char>) -> Option<Seq<char>> {
    let parts = split_on(call_id, '-');
    if parts.len() >= 3 {
        Some(parts[parts.len() - 2] + "-"@ + parts[parts.len() - 1])
    } else {
        None
    }
}

fn derive_stream_id(call_id: &str) -> (r: Option<String>)
    ensures
        match r {
            Some(s) => stream_id(call_id@) == Some(s@),
            None => stream_id(call_id@) is None,
        },
{
    let v = chars_of(call_id);
    let parts = split_chars(&v, '-');
    let n = parts.len();
    if n >= 3 {
        let mut s = chars_of("");
        proof {
            reveal_strlit("");
            assert(""@ =~= Seq::<char>::empty());
        }
        push_all(&mut s, &parts[n - 2]);
        push_str_chars(&mut s, "-");
        push_all(&mut s, &parts[n - 1]);
        proof {
            assert(vv(parts@)[n - 2] == parts@[n - 2]@);
            assert(vv(parts@)[n - 1] == parts@[n - 1]@);
        }
        Some(string_of(s.as_slice()))
    } else {
        None
    }
}

// ---------------------------------------------------------------------------
// Cards
// ---------------------------------------------------------------------------

/// A running tool card.
pub open spec fn running_card(name: Seq<char>, title: Seq<char>, call_id: Seq<char>) -> RespView {
    RespView {
        tool_name: name,
        tool_title: title,
        tool_status: "running"@,
        tool_call_id: call_id,
        ..resp_default("tool"@, seq![])
    }
}

/// A new card appended to the open group, with the call id pointing at it.
pub open spec fn new_card_spec(s: StateView, key: Seq<char>, card: RespView, e: u64) -> StateView {
    let (s1, gi) = ensure_spec(StateView { in_thinking: false, ..s }, e);
    let ii = s1.blocks[gi].work_group_items.len();
    StateView {
        blocks: push_entry(s1.blocks, gi, card),
        tools: insert_key(s1.tools, key, (gi as usize, ii as usize)),
        ..s1
    }
}

/// Called when a tool call is detected while streaming.
pub open spec fn detected_spec(s: StateView, stream_call_id: Seq<char>, name: Seq<char>, e: u64) -> StateView {
    new_card_spec(s, stream_call_id, running_card(name, friendly_title(name, seq![], false), seq![]), e)
}

/// Called when a tool call starts under its provider id: the card announced
/// under the matching streaming id takes the id, name and title; without
/// such a card a new one is appended.
pub open spec fn start_spec(s: StateView, call_id: Seq<char>, name: Seq<char>, e: u64) -> StateView {
    let known = match stream_id(call_id) {
        Some(sk) => match lookup(s.tools, sk) {
            Some(gi) => Some((sk, gi)),
            None => None,
        },
        None => None,
    };
    match known {
        Some((sk, (g, i))) => {
            let blocks = if entry_exists(s.blocks, g as int, i as int) {
                let c = s.blocks[g as int].work_group_items[i as int];
                set_entry(
                    s.blocks,
                    g as int,
                    i as int,
                    RespView {
                        tool_call_id: call_id,
                        tool_name: name,
                        tool_title: friendly_title(name, seq![], false),
                        ..c
                    },
                )
            } else {
                s.blocks
            };
            StateView { blocks, tools: insert_key(remove_key(s.tools, sk), call_id, (g, i)), ..s }
        },
        None => new_card_spec(s, call_id, running_card(name, friendly_title(name, seq![], false), call_id), e),
    }
}

/// The arguments shown on a card: pretty-printed when they are JSON.
pub open spec fn shown_args(args: Seq<char>) -> Seq<char> {
    match json_pretty(args) {
        Some(p) => p,
        None => args,
    }
}

/// Called when a tool call's arguments are complete.
pub open spec fn args_ready_spec(s: StateView, call_id: Seq<char>, name: Seq<char>, args: Seq<char>) -> StateView {
    match lookup(s.tools, call_id) {
        Some((g, i)) => if entry_exists(s.blocks, g as int, i as int) {
            let c = s.blocks[g as int].work_group_items[i as int];
            with_blocks(
                s,
                set_entry(
                    s.blocks,
                    g as int,
                    i as int,
                    overlay(
                        RespView {
                            tool_args: shown_args(args),
                            tool_title: friendly_title(name, args, false),
                            ..c
                        },
                        name,
                        args,
                    ),
                ),
            )
        } else {
            s
        },
        None => s,
    }
}

/// The text a tool result shows: its `content` string, else the result
/// pretty-printed, else the raw text.
pub open spec fn shown_result(content: Seq<char>) -> Seq<char> {
    match json_member(content, "content"@) {
        MemberView::Text(t) => t,
        _ => shown_args(content),
    }
}

pub open spec fn status_text(is_error: bool) -> Seq<char> {
    if is_error {
        "failed"@
    } else {
        "completed"@
    }
}

/// Called when a tool call's result arrives: the card the call id points at
/// is completed (or failed); without one a completed card is appended.
pub open spec fn result_spec(
    s: StateView,
    call_id: Seq<char>,
    name: Seq<char>,
    is_error: bool,
    content: Seq<char>,
    e: u64,
) -> StateView {
    let title = friendly_title(name, seq![], true);
    match lookup(s.tools, call_id) {
        Some((g, i)) => if entry_exists(s.blocks, g as int, i as int) {
            let c = s.blocks[g as int].work_group_items[i as int];
            with_blocks(
                s,
                set_entry(
                    s.blocks,
                    g as int,
                    i as int,
                    overlay(
                        RespView {
                            tool_status: status_text(is_error),
                            tool_result: shown_result(content),
                            tool_title: title,
                            ..c
                        },
                        name,
                        c.tool_args,
                    ),
                ),
            )
        } else {
            s
        },
        None => new_card_spec(
            s,
            call_id,
            overlay(
                RespView {
                    tool_name: name,
                    tool_title: title,
                    tool_status: status_text(is_error),
                    tool_result: shown_result(content),
                    tool_call_id: call_id,
                    ..resp_default("tool"@, seq![])
                },
                name,
                seq![],
            ),
            e,
        ),
    }
}

fn running_tool_card(name: &str, title: String, call_id: String) -> (r: ParsedMarkdownItem)
    ensures
        resp_view(r) == running_card(name@, title@, call_id@),
{
    let mut item = ParsedMarkdownItem::new_default(owned("tool"), String::new());
    proof {
        reveal_strlit("");
        assert(""@ =~= Seq::<char>::empty());
    }
    item.tool_name = owned(name);
    item.tool_title = title;
    item.tool_status = owned("running");
    item.tool_call_id = call_id;
    item
}

/// Appends `card` to the open activity group under `key`.
fn add_card(state: &mut ResponseState, key: &str, card: ParsedMarkdownItem)
    ensures
        reuses_group(old(state)@) ==> final(state).work_group_start == old(state).work_group_start,
        !reuses_group(old(state)@) ==> final(state).work_group_start is Some,
        exists|e: u64| final(state)@ == new_card_spec(old(state)@, key@, resp_view(card), e),
{
    state.in_thinking = false;
    let ghost s0 = state@;
    let gi = state.ensure_work_group_open();
    let ghost s1 = state@;
    let ghost e = choose|e: u64| (s1, gi as int) == ensure_spec(s0, e);
    let ii = state.push_entry(gi, card);
    key_insert(&mut state.active_tool_calls, key, (gi, ii));
    assert(final_state_is(state@, new_card_spec(old(state)@, key@, resp_view(card), e)));
}

pub open spec fn final_state_is(a: StateView, b: StateView) -> bool {
    a == b
}

/// Called on a tool call detected while streaming.
pub fn append_tool_detected(state: &mut ResponseState, stream_call_id: &str, name: &str)
    ensures
        reuses_group(old(state)@) ==> final(state).work_group_start == old(state).work_group_start,
        !reuses_group(old(state)@) ==> final(state).work_group_start is Some,
        exists|e: u64| final(state)@ == detected_spec(old(state)@, stream_call_id@, name@, e),
{
    let title = get_tool_friendly_title(name, "", false);
    proof {
        reveal_strlit("");
        assert(""@ =~= Seq::<char>::empty());
    }
    let card = running_tool_card(name, title, String::new());
    let ghost cv = resp_view(card);
    add_card(state, stream_call_id, card);
    proof {
        let e = choose|e: u64| state@ == new_card_spec(old(state)@, stream_call_id@, cv, e);
        assert(state@ == detected_spec(old(state)@, stream_call_id@, name@, e));
    }
}

/// Called when a tool call starts under its provider call id.
pub fn append_tool_start(state: &mut ResponseState, call_id: &str, name: &str)
    ensures
        reuses_group(old(state)@) ==> final(state).work_group_start == old(state).work_group_start,
        final(state).work_group_start == old(state).work_group_start || final(state).work_group_start is Some,
        exists|e: u64| final(state)@ == start_spec(old(state)@, call_id@, name@, e),
{
    proof {
        reveal_strlit("");
        assert(""@ =~= Seq::<char>::empty());
    }
    if let Some(stream_key) = derive_stream_id(call_id) {
        if let Some(gi) = key_get(&state.active_tool_calls, stream_key.as_str()) {
            let (g, i) = gi;
            if let Some(mut card) = state.take_entry(g, i) {
                card.tool_call_id = owned(call_id);
                card.tool_name = owned(name);
                card.tool_title = get_tool_friendly_title(name, "", false);
                proof {
                    lemma_set_entry_twice(
                        old(state)@.blocks,
                        g as int,
                        i as int,
                        resp_default(seq![], seq![]),
                        resp_view(card),
                    );
                }
                state.put_entry(g, i, card);
            }
            key_remove(&mut state.active_tool_calls, stream_key.as_str());
            key_insert(&mut state.active_tool_calls, call_id, (g, i));
            assert(final_state_is(state@, start_spec(old(state)@, call_id@, name@, 0)));
            return;
        }
    }
    let title = get_tool_friendly_title(name, "", false);
    let card = running_tool_card(name, title, owned(call_id));
    let ghost cv = resp_view(card);
    add_card(state, call_id, card);
    proof {
        let e = choose|e: u64| state@ == new_card_spec(old(state)@, call_id@, cv, e);
        assert(state@ == start_spec(old(state)@, call_id@, name@, e));
    }
}

/// Called when a tool call's arguments are complete.
pub fn append_tool_args_ready(state: &mut ResponseState, call_id: &str, name: &str, args_json: &str)
    ensures
        final(state).work_group_start == old(state).work_group_start,
        final(state)@ == args_ready_spec(old(state)@, call_id@, name@, args_json@),
{
    if let Some(gi) = key_get(&state.active_tool_calls, call_id) {
        let (g, i) = gi;
        if let Some(mut card) = state.take_entry(g, i) {
            card.tool_args = match json_pretty_of(args_json) {
                Some(p) => p,
                None => owned(args_json),
            };
            card.tool_title = get_tool_friendly_title(name, args_json, false);
            apply_diff_overlay(&mut card, name, args_json);
            proof {
                lemma_set_entry_twice(
                    old(state)@.blocks,
                    g as int,
                    i as int,
                    resp_default(seq![], seq![]),
                    resp_view(card),
                );
            }
            state.put_entry(g, i, card);
        }
    }
}

/// Streamed body deltas of a tool call are not shown; the state is unchanged.
pub fn append_tool_body_delta(state: &mut ResponseState, call_id: &str, text: &str)
    ensures
        final(state).work_group_start == old(state).work_group_start,
        final(state)@ == old(state)@,
{
}

fn result_text(content_json: &str) -> (r: String)
    ensures
        r@ == shown_result(content_json@),
{
    match json_member_of(content_json, "content") {
        JsonMember::Text(t) => t,
        _ => match json_pretty_of(content_json) {
            Some(p) => p,
            None => owned(content_json),
        },
    }
}

/// Called when a tool call's result arrives.
pub fn append_tool_result(
    state: &mut ResponseState,
    call_id: &str,
    name: &str,
    is_error: bool,
    content_json: &str,
)
    ensures
        reuses_group(old(state)@) ==> final(state).work_group_start == old(state).work_group_start,
        final(state).work_group_start == old(state).work_group_start || final(state).work_group_start is Some,
        exists|e: u64|
            final(state)@ == result_spec(old(state)@, call_id@, name@, is_error, content_json@, e),
{
    proof {
        reveal_strlit("");
        assert(""@ =~= Seq::<char>::empty());
    }
    let text = result_text(content_json);
    let title = get_tool_friendly_title(name, "", true);
    let status = if is_error {
        "failed"
    } else {
        "completed"
    };
    if let Some(gi) = key_get(&state.active_tool_calls, call_id) {
        let (g, i) = gi;
        if let Some(mut card) = state.take_entry(g, i) {
            card.tool_status = owned(status);
            card.tool_result = text;
            card.tool_title = title;
            let args = card.tool_args.clone();
            apply_diff_overlay(&mut card, name, args.as_str());
            proof {
                lemma_set_entry_twice(
                    old(state)@.blocks,
                    g as int,
                    i as int,
                    resp_default(seq![], seq![]),
                    resp_view(card),
                );
            }
            state.put_entry(g, i, card);
        }
        assert(final_state_is(state@, result_spec(old(state)@, call_id@, name@, is_error, content_json@, 0)));
    } else {
        let mut card = ParsedMarkdownItem::new_default(owned("tool"), String::new());
        card.tool_name = owned(name);
        card.tool_title = title;
        card.tool_status = owned(status);
        card.tool_result = text;
        card.tool_call_id = owned(call_id);
        let args = card.tool_args.clone();
        apply_diff_overlay(&mut card, name, args.as_str());
        let ghost cv = resp_view(card);
        add_card(state, call_id, card);
        proof {
            let e = choose|e: u64| state@ == new_card_spec(old(state)@, call_id@, cv, e);
            assert(state@ == result_spec(old(state)@, call_id@, name@, is_error, content_json@, e));
        }
    }
}

/// After a tool call starts, its provider id points at a card in the turn.
pub proof fn lemma_start_registers_call(s: StateView, call_id: Seq<char>, name: Seq<char>, e: u64)
    ensures
        lookup(start_spec(s, call_id, name, e).tools, call_id) is Some,
{
    let known = match stream_id(call_id) {
        Some(sk) => match lookup(s.tools, sk) {
            Some(gi) => Some((sk, gi)),
            None => None,
        },
        None => None,
    };
    match known {
        Some((sk, gi)) => {
            crate::main_content::keyed::lemma_insert_lookup(
                remove_key(s.tools, sk),
                call_id,
                gi,
                call_id,
            );
        },
        None => {
            let (s1, g) = ensure_spec(StateView { in_thinking: false, ..s }, e);
            let ii = s1.blocks[g].work_group_items.len();
            crate::main_content::keyed::lemma_insert_lookup(
                s1.tools,
                call_id,
                (g as usize, ii as usize),
                call_id,
            );
        },
    }
}

} // verus!
