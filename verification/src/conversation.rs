//! A stored conversation turned back into the messages the chat view shows.
//!
//! The session store hands back the messages of the last turn; each user
//! message becomes one entry of its own, and the assistant's text, thinking
//! and tool calls between two user messages gather into one assistant entry.
//! Tool calls are matched with their results by call id.

use crate::main_content::assistant_messages::items::{
    code_lines_view, item_default, items_view, lemma_items_view_push, ItemView, ParsedMarkdownItem,
};
use crate::main_content::assistant_messages::markdown::{message_items, parse_markdown_sendable};
use crate::main_content::assistant_messages::assoc::lookup;
use crate::main_content::reasoning::{join, join_parts};
use crate::main_content::tools::cards::{friendly_title, get_tool_friendly_title};
use crate::main_content::tools::diff::{diff_of, parse_diff};
use crate::main_content::tools::json::{json_pretty, json_pretty_of};
use crate::text::{owned, str_eq, string_of};
use vstd::prelude::*;

verus! {

/// Who wrote a stored message.
#[derive(Debug, Clone, Copy, PartialEq, Eq, Structural)]
pub enum MessageRole {
    User,
    Assistant,
    Tool,
    /// Any other author (system instructions and the like).
    Other,
}

/// One content block of a stored message.
#[derive(Debug)]
pub enum HistoryBlock {
    Text(String),
    /// The model's reasoning.
    Reasoning(String),
    /// A tool call, its arguments as JSON text.
    ToolCall { id: String, name: String, arguments_json: String },
    /// The result of the call `call_id`.
    ToolResult { call_id: String, is_error: bool, content: String },
    /// A block the chat view does not show.
    Other,
}

/// One stored message.
#[derive(Debug)]
pub struct HistoryMessage {
    pub role: MessageRole,
    pub content: Vec<HistoryBlock>,
}

/// The value of a [`HistoryBlock`].
pub enum BlockView {
    Text(Seq<char>),
    Reasoning(Seq<char>),
    ToolCall { id: Seq<char>, name: Seq<char>, args: Seq<char> },
    ToolResult { call_id: Seq<char>, is_error: bool, content: Seq<char> },
    Other,
}

pub open spec fn block_view(b: HistoryBlock) -> BlockView {
    match b {
        HistoryBlock::Text(s) => BlockView::Text(s@),
        HistoryBlock::Reasoning(s) => BlockView::Reasoning(s@),
        HistoryBlock::ToolCall { id, name, arguments_json } => BlockView::ToolCall {
            id: id@,
            name: name@,
            args: arguments_json@,
        },
        HistoryBlock::ToolResult { call_id, is_error, content } => BlockView::ToolResult {
            call_id: call_id@,
            is_error,
            content: content@,
        },
        HistoryBlock::Other => BlockView::Other,
    }
}

pub open spec fn blocks_view(c: Seq<HistoryBlock>) -> Seq<BlockView> {
    c.map_values(|b: HistoryBlock| block_view(b))
}

/// A message by its role and the values of its blocks.
pub open spec fn message_view(m: HistoryMessage) -> (MessageRole, Seq<BlockView>) {
    (m.role, blocks_view(m.content@))
}

pub open spec fn turn_view(t: Seq<HistoryMessage>) -> Seq<(MessageRole, Seq<BlockView>)> {
    t.map_values(|m: HistoryMessage| message_view(m))
}

pub open spec fn strings_view(v: Seq<String>) -> Seq<Seq<char>> {
    v.map_values(|s: String| s@)
}

/// A shown entry: whether the user wrote it, its text, its blocks.
pub open spec fn entries_view(
    v: Seq<(bool, String, Vec<ParsedMarkdownItem>)>,
) -> Seq<(bool, Seq<char>, Seq<ItemView>)> {
    v.map_values(|e: (bool, String, Vec<ParsedMarkdownItem>)| (e.0, e.1@, items_view(e.2@)))
}

/// The tool results of a message's blocks, by call id, in order.
pub open spec fn block_results(c: Seq<BlockView>) -> Seq<(Seq<char>, (bool, Seq<char>))>
    decreases c.len(),
{
    if c.len() == 0 {
        seq![]
    } else {
        let r = block_results(c.drop_last());
        match c.last() {
            BlockView::ToolResult { call_id, is_error, content } => r.push((call_id, (is_error, content))),
            _ => r,
        }
    }
}

/// The tool results that the tool messages of a turn carry, in order; a
/// later result for the same call id takes the place of an earlier one.
pub open spec fn turn_results(t: Seq<(MessageRole, Seq<BlockView>)>) -> Seq<(Seq<char>, (bool, Seq<char>))>
    decreases t.len(),
{
    if t.len() == 0 {
        seq![]
    } else {
        let r = turn_results(t.drop_last());
        if t.last().0 == MessageRole::Tool {
            r + block_results(t.last().1)
        } else {
            r
        }
    }
}

/// The card of a stored tool call: arguments pretty-printed, titled, and
/// marked running until a result is known, then completed or failed with
/// the result's text; a finished file edit also carries its diff.
pub open spec fn history_tool_card(
    name: Seq<char>,
    id: Seq<char>,
    args_json: Seq<char>,
    result: Option<(bool, Seq<char>)>,
) -> ItemView {
    let args = match json_pretty(args_json) {
        Some(p) => p,
        None => seq![],
    };
    let base = ItemView {
        tool_name: name,
        tool_call_id: id,
        tool_args: args,
        ..item_default("tool"@, seq![], seq![], seq![])
    };
    match result {
        Some((is_error, content)) => {
            let done = ItemView {
                tool_status: if is_error {
                    "failed"@
                } else {
                    "completed"@
                },
                tool_result: content,
                tool_title: friendly_title(name, args, true),
                ..base
            };
            if name == "write"@ || name == "append"@ || name == "edit"@ {
                let (lines, added, deleted) = diff_of(name, args);
                ItemView {
                    tool_is_diff: true,
                    tool_diff_lines: lines,
                    tool_added_count: added,
                    tool_deleted_count: deleted,
                    ..done
                }
            } else {
                done
            }
        },
        None => ItemView { tool_status: "running"@, tool_title: friendly_title(name, args, false), ..base },
    }
}

/// The assistant's blocks gathered so far, and its text parts, after `c`.
pub open spec fn assistant_fold(
    acc: (Seq<ItemView>, Seq<Seq<char>>),
    c: Seq<BlockView>,
    results: Seq<(Seq<char>, (bool, Seq<char>))>,
) -> (Seq<ItemView>, Seq<Seq<char>>)
    decreases c.len(),
{
    if c.len() == 0 {
        acc
    } else {
        let (items, parts) = assistant_fold(acc, c.drop_last(), results);
        match c.last() {
            BlockView::Text(s) => (items + message_items(s, false), parts.push(s)),
            BlockView::Reasoning(t) => (items.push(item_default("thinking"@, t, seq![], seq![])), parts),
            BlockView::ToolCall { id, name, args } => (
                items.push(history_tool_card(name, id, args, lookup(results, id))),
                parts,
            ),
            _ => (items, parts),
        }
    }
}

/// A user message's blocks and text parts: only its text counts.
pub open spec fn user_fold(c: Seq<BlockView>) -> (Seq<ItemView>, Seq<Seq<char>>)
    decreases c.len(),
{
    if c.len() == 0 {
        (seq![], seq![])
    } else {
        let (items, parts) = user_fold(c.drop_last());
        match c.last() {
            BlockView::Text(s) => (items + message_items(s, false), parts.push(s)),
            _ => (items, parts),
        }
    }
}

/// `out`, followed by the pending assistant entry if it holds anything.
pub open spec fn flush_assistant(
    out: Seq<(bool, Seq<char>, Seq<ItemView>)>,
    items: Seq<ItemView>,
    parts: Seq<Seq<char>>,
) -> Seq<(bool, Seq<char>, Seq<ItemView>)> {
    if items.len() > 0 || parts.len() > 0 {
        out.push((false, join(parts, "\n"@), items))
    } else {
        out
    }
}

/// The entries made so far, and the pending assistant blocks and text
/// parts, after the messages `t`.
pub open spec fn turn_fold(
    t: Seq<(MessageRole, Seq<BlockView>)>,
    results: Seq<(Seq<char>, (bool, Seq<char>))>,
) -> (Seq<(bool, Seq<char>, Seq<ItemView>)>, Seq<ItemView>, Seq<Seq<char>>)
    decreases t.len(),
{
    if t.len() == 0 {
        (seq![], seq![], seq![])
    } else {
        let (out, items, parts) = turn_fold(t.drop_last(), results);
        let (role, c) = t.last();
        if role == MessageRole::User {
            let (ui, up) = user_fold(c);
            (flush_assistant(out, items, parts).push((true, join(up, "\n"@), ui)), seq![], seq![])
        } else if role == MessageRole::Assistant {
            let (i2, p2) = assistant_fold((items, parts), c, results);
            (out, i2, p2)
        } else {
            (out, items, parts)
        }
    }
}

/// The entries the chat view shows for a stored turn.
pub open spec fn turn_entries(t: Seq<(MessageRole, Seq<BlockView>)>) -> Seq<(bool, Seq<char>, Seq<ItemView>)> {
    let (out, items, parts) = turn_fold(t, turn_results(t));
    flush_assistant(out, items, parts)
}

pub open spec fn results_view(r: Seq<(String, (bool, String))>) -> Seq<(Seq<char>, (bool, Seq<char>))> {
    r.map_values(|e: (String, (bool, String))| (e.0@, (e.1.0, e.1.1@)))
}

fn collect_results(turn: &Vec<HistoryMessage>) -> (r: Vec<(String, (bool, String))>)
    ensures
        results_view(r@) == turn_results(turn_view(turn@)),
{
    let ghost tv = turn_view(turn@);
    let mut out: Vec<(String, (bool, String))> = Vec::new();
    let mut i: usize = 0;
    while i < turn.len()
        invariant
            i <= turn.len(),
            tv == turn_view(turn@),
            results_view(out@) == turn_results(tv.take(i as int)),
        decreases turn.len() - i,
    {
        proof {
            assert(tv.take(i + 1).drop_last() =~= tv.take(i as int));
            assert(tv.take(i + 1).last() == message_view(turn@[i as int]));
        }
        if turn[i].role == MessageRole::Tool {
            let content = &turn[i].content;
            let ghost cv = blocks_view(content@);
            let ghost base = results_view(out@);
            let mut j: usize = 0;
            while j < content.len()
                invariant
                    j <= content.len(),
                    cv == blocks_view(content@),
                    results_view(out@) == base + block_results(cv.take(j as int)),
                decreases content.len() - j,
            {
                proof {
                    assert(cv.take(j + 1).drop_last() =~= cv.take(j as int));
                    assert(cv.take(j + 1).last() == block_view(content@[j as int]));
                }
                match &content[j] {
                    HistoryBlock::ToolResult { call_id, is_error, content: text } => {
                        let ghost o0 = out@;
                        out.push((call_id.clone(), (*is_error, text.clone())));
                        assert(results_view(out@) =~= results_view(o0).push(
                            (call_id@, (*is_error, text@)),
                        ));
                    },
                    _ => {},
                }
                j += 1;
            }
            assert(cv.take(content.len() as int) =~= cv);
        }
        i += 1;
    }
    assert(tv.take(turn.len() as int) =~= tv);
    out
}

/// The most recent result for call `id`.
fn find_result(results: &Vec<(String, (bool, String))>, id: &str) -> (r: Option<(bool, String)>)
    ensures
        match r {
            Some((e, c)) => lookup(results_view(results@), id@) == Some((e, c@)),
            None => lookup(results_view(results@), id@) is None,
        },
{
    let ghost rv = results_view(results@);
    let mut i: usize = results.len();
    assert(rv.take(results.len() as int) =~= rv);
    while i > 0
        invariant
            i <= results.len(),
            rv == results_view(results@),
            lookup(rv, id@) == lookup(rv.take(i as int), id@),
        decreases i,
    {
        proof {
            assert(rv.take(i as int).drop_last() =~= rv.take(i - 1));
            assert(rv.take(i as int).last() == rv[i - 1]);
        }
        if str_eq(results[i - 1].0.as_str(), id) {
            return Some((results[i - 1].1.0, results[i - 1].1.1.clone()));
        }
        i -= 1;
    }
    None
}

fn tool_card(name: &str, id: &str, arguments_json: &str, result: Option<(bool, String)>) -> (r:
    ParsedMarkdownItem)
    ensures
        r@ == history_tool_card(
            name@,
            id@,
            arguments_json@,
            match result {
                Some((e, c)) => Some((e, c@)),
                None => None,
            },
        ),
{
    proof {
        reveal_strlit("");
        reveal_strlit("write");
        reveal_strlit("append");
        reveal_strlit("edit");
        assert(""@ =~= Seq::<char>::empty());
        assert(code_lines_view(Seq::empty()) =~= seq![]);
    }
    let mut item = ParsedMarkdownItem::new_default(owned("tool"), String::new(), String::new(), Vec::new());
    item.tool_name = owned(name);
    item.tool_call_id = owned(id);
    let args = match json_pretty_of(arguments_json) {
        Some(p) => p,
        None => String::new(),
    };
    item.tool_args = args.clone();
    match result {
        Some((is_error, content)) => {
            item.tool_status = if is_error {
                owned("failed")
            } else {
                owned("completed")
            };
            item.tool_result = content;
            item.tool_title = get_tool_friendly_title(name, args.as_str(), true);
            if str_eq(name, "write") || str_eq(name, "append") || str_eq(name, "edit") {
                item.tool_is_diff = true;
                let (lines, added, deleted) = parse_diff(name, args.as_str());
                item.tool_diff_lines = lines;
                item.tool_added_count = added;
                item.tool_deleted_count = deleted;
            }
        },
        None => {
            item.tool_status = owned("running");
            item.tool_title = get_tool_friendly_title(name, args.as_str(), false);
        },
    }
    item
}

/// Appends the shown blocks of `text` to `items` and the text to `parts`.
fn push_text_block(items: &mut Vec<ParsedMarkdownItem>, parts: &mut Vec<String>, text: &String)
    ensures
        items_view(final(items)@) == items_view(old(items)@) + message_items(text@, false),
        strings_view(final(parts)@) == strings_view(old(parts)@).push(text@),
{
    let mut parsed = parse_markdown_sendable(text.as_str());
    let ghost i0 = items@;
    let ghost p0 = parsed@;
    items.append(&mut parsed);
    assert(items_view(items@) =~= items_view(i0) + items_view(p0));
    let ghost s0 = parts@;
    parts.push(text.clone());
    assert(strings_view(parts@) =~= strings_view(s0).push(text@));
}

fn assistant_blocks(
    content: &Vec<HistoryBlock>,
    results: &Vec<(String, (bool, String))>,
    items: &mut Vec<ParsedMarkdownItem>,
    parts: &mut Vec<String>,
)
    ensures
        (items_view(final(items)@), strings_view(final(parts)@)) == assistant_fold(
            (items_view(old(items)@), strings_view(old(parts)@)),
            blocks_view(content@),
            results_view(results@),
        ),
{
    let ghost cv = blocks_view(content@);
    let ghost acc0 = (items_view(items@), strings_view(parts@));
    let ghost rv = results_view(results@);
    let mut j: usize = 0;
    while j < content.len()
        invariant
            j <= content.len(),
            cv == blocks_view(content@),
            rv == results_view(results@),
            (items_view(items@), strings_view(parts@)) == assistant_fold(acc0, cv.take(j as int), rv),
        decreases content.len() - j,
    {
        proof {
            assert(cv.take(j + 1).drop_last() =~= cv.take(j as int));
            assert(cv.take(j + 1).last() == block_view(content@[j as int]));
        }
        match &content[j] {
            HistoryBlock::Text(s) => {
                push_text_block(items, parts, s);
            },
            HistoryBlock::Reasoning(t) => {
                let card = ParsedMarkdownItem::new_default(owned("thinking"), t.clone(), String::new(), Vec::new());
                proof {
                    reveal_strlit("");
                    assert(""@ =~= Seq::<char>::empty());
                    assert(code_lines_view(Seq::empty()) =~= seq![]);
                    lemma_items_view_push(items@, card);
                }
                items.push(card);
            },
            HistoryBlock::ToolCall { id, name, arguments_json } => {
                let result = find_result(results, id.as_str());
                let card = tool_card(name.as_str(), id.as_str(), arguments_json.as_str(), result);
                proof {
                    lemma_items_view_push(items@, card);
                }
                items.push(card);
            },
            _ => {},
        }
        j += 1;
    }
    assert(cv.take(content.len() as int) =~= cv);
}

fn user_blocks(content: &Vec<HistoryBlock>) -> (r: (Vec<ParsedMarkdownItem>, Vec<String>))
    ensures
        (items_view(r.0@), strings_view(r.1@)) == user_fold(blocks_view(content@)),
{
    let ghost cv = blocks_view(content@);
    let mut items: Vec<ParsedMarkdownItem> = Vec::new();
    let mut parts: Vec<String> = Vec::new();
    let mut j: usize = 0;
    assert(items_view(items@) =~= seq![]);
    assert(strings_view(parts@) =~= seq![]);
    while j < content.len()
        invariant
            j <= content.len(),
            cv == blocks_view(content@),
            (items_view(items@), strings_view(parts@)) == user_fold(cv.take(j as int)),
        decreases content.len() - j,
    {
        proof {
            assert(cv.take(j + 1).drop_last() =~= cv.take(j as int));
            assert(cv.take(j + 1).last() == block_view(content@[j as int]));
        }
        match &content[j] {
            HistoryBlock::Text(s) => {
                push_text_block(&mut items, &mut parts, s);
            },
            _ => {},
        }
        j += 1;
    }
    assert(cv.take(content.len() as int) =~= cv);
    (items, parts)
}

fn flush_entry(
    out: &mut Vec<(bool, String, Vec<ParsedMarkdownItem>)>,
    items: &mut Vec<ParsedMarkdownItem>,
    parts: &mut Vec<String>,
)
    ensures
        entries_view(final(out)@) == flush_assistant(
            entries_view(old(out)@),
            items_view(old(items)@),
            strings_view(old(parts)@),
        ),
        final(items)@.len() == 0,
        final(parts)@.len() == 0,
{
    if items.len() > 0 || parts.len() > 0 {
        let text = string_of(join_parts(parts, "\n").as_slice());
        let mut taken: Vec<ParsedMarkdownItem> = Vec::new();
        std::mem::swap(&mut taken, items);
        let ghost o0 = out@;
        out.push((false, text, taken));
        assert(entries_view(out@) =~= entries_view(o0).push(
            (false, join(strings_view(old(parts)@), "\n"@), items_view(old(items)@)),
        ));
        *parts = Vec::new();
    } else {
        assert(items_view(items@) =~= seq![]);
        assert(strings_view(parts@) =~= seq![]);
    }
}

/// The entries the chat view shows for the messages of a stored turn (see
/// [`turn_entries`]): each user message on its own, the assistant's blocks
/// between two user messages gathered into one entry whose text is its text
/// blocks joined by line breaks.
pub fn turn_messages(turn: &Vec<HistoryMessage>) -> (r: Vec<(bool, String, Vec<ParsedMarkdownItem>)>)
    ensures
        entries_view(r@) == turn_entries(turn_view(turn@)),
{
    let results = collect_results(turn);
    let ghost tv = turn_view(turn@);
    let ghost rv = results_view(results@);
    let mut out: Vec<(bool, String, Vec<ParsedMarkdownItem>)> = Vec::new();
    let mut items: Vec<ParsedMarkdownItem> = Vec::new();
    let mut parts: Vec<String> = Vec::new();
    assert(entries_view(out@) =~= seq![]);
    assert(items_view(items@) =~= seq![]);
    assert(strings_view(parts@) =~= seq![]);
    let mut i: usize = 0;
    while i < turn.len()
        invariant
            i <= turn.len(),
            tv == turn_view(turn@),
            rv == results_view(results@),
            rv == turn_results(tv),
            (entries_view(out@), items_view(items@), strings_view(parts@)) == turn_fold(tv.take(i as int), rv),
        decreases turn.len() - i,
    {
        proof {
            assert(tv.take(i + 1).drop_last() =~= tv.take(i as int));
            assert(tv.take(i + 1).last() == message_view(turn@[i as int]));
        }
        let msg = &turn[i];
        if msg.role == MessageRole::User {
            flush_entry(&mut out, &mut items, &mut parts);
            let (ui, up) = user_blocks(&msg.content);
            let text = string_of(join_parts(&up, "\n").as_slice());
            let ghost o0 = out@;
            out.push((true, text, ui));
            assert(entries_view(out@) =~= entries_view(o0).push(
                (true, join(strings_view(up@), "\n"@), items_view(ui@)),
            ));
            assert(items_view(items@) =~= seq![]);
            assert(strings_view(parts@) =~= seq![]);
        } else if msg.role == MessageRole::Assistant {
            assistant_blocks(&msg.content, &results, &mut items, &mut parts);
        }
        i += 1;
    }
    assert(tv.take(turn.len() as int) =~= tv);
    flush_entry(&mut out, &mut items, &mut parts);
    out
}

} // verus!
