use operon_gui::main_content::markdown::{
    convert_legacy_work_items, group_legacy_work_items, toggle_work_group_expanded, toggle_work_item_expanded,
    ParsedMarkdownItem,
};
use operon_gui::main_content::reasoning::{build_work_summary, ResponseState};
use operon_gui::main_content::tools::cards::append_tool_start;

fn thinking_item() -> ParsedMarkdownItem {
    let mut item = ParsedMarkdownItem::new_default("thinking".to_string(), String::new());
    item.thinking_text = "Inspecting state".to_string();
    item
}

fn tool_item(name: &str) -> ParsedMarkdownItem {
    let mut item = ParsedMarkdownItem::new_default("tool".to_string(), String::new());
    item.tool_name = name.to_string();
    item
}

#[test]
fn build_work_summary_counts_known_activity_categories() {
    let items = vec![
        tool_item("read"),
        tool_item("read"),
        tool_item("edit"),
        tool_item("ls"),
        tool_item("web_search"),
        thinking_item(),
        thinking_item(),
        thinking_item(),
    ];

    assert_eq!(
        build_work_summary(&items),
        "Read 2 files, edited a file, listed a directory, searched once, thought 3 times"
    );
}

#[test]
fn build_work_summary_uses_fallback_for_unknown_tools() {
    let items = vec![tool_item("bash"), tool_item("run_command")];

    assert_eq!(build_work_summary(&items), "Ran 2 tools");
}

#[test]
fn test_multiple_work_steps_grouped_in_single_pill_without_text_between() {
    let mut state = ResponseState::new();

    state.append_thinking("Thinking step 1...");
    state.append_text("\n");
    append_tool_start(&mut state, "call-1", "web_search");
    state.append_text(" ");
    state.append_thinking("Thinking step 2...");
    append_tool_start(&mut state, "call-2", "web_search");

    let items = state.build_parsed_items();
    let work_groups: Vec<_> = items.iter().filter(|i| i.kind == "work_group").collect();

    assert_eq!(work_groups.len(), 1);
    assert_eq!(work_groups[0].work_group_items.len(), 4);

    state.append_text("Here is the response text");
    let items_after_text = state.finalize();
    let work_groups_after: Vec<_> = items_after_text
        .iter()
        .filter(|i| i.kind == "work_group")
        .collect();
    let text_blocks: Vec<_> = items_after_text.iter().filter(|i| i.kind == "text").collect();

    assert_eq!(work_groups_after.len(), 1);
    assert_eq!(text_blocks.len(), 1);
    assert_eq!(text_blocks[0].text, "Here is the response text");
}

#[test]
fn test_work_groups_split_on_interleaved_response_text() {
    let mut state = ResponseState::new();

    state.append_thinking("Thinking turn 1...");
    append_tool_start(&mut state, "call-1", "web_search");

    state.append_text("Let me try searching with a different query:");

    state.append_thinking("Thinking turn 2...");
    append_tool_start(&mut state, "call-2", "web_search");

    let items = state.build_parsed_items();
    let work_groups: Vec<_> = items.iter().filter(|i| i.kind == "work_group").collect();
    let text_blocks: Vec<_> = items.iter().filter(|i| i.kind == "text").collect();

    assert_eq!(work_groups.len(), 2);
    assert_eq!(work_groups[0].work_group_items.len(), 2);
    assert_eq!(work_groups[1].work_group_items.len(), 2);
    assert_eq!(text_blocks.len(), 1);
    assert_eq!(text_blocks[0].text, "Let me try searching with a different query:");
}

#[test]
fn empty_group_summary_is_worked() {
    let items: Vec<ParsedMarkdownItem> = Vec::new();
    assert_eq!(build_work_summary(&items), "Worked");
}

#[test]
fn consecutive_thinking_deltas_extend_one_entry() {
    let mut state = ResponseState::new();
    state.append_thinking("a");
    state.append_thinking("b");
    let items = state.finalize();
    assert_eq!(items.len(), 1);
    assert_eq!(items[0].kind, "work_group");
    assert_eq!(items[0].work_group_items.len(), 1);
    assert_eq!(items[0].work_group_items[0].thinking_text, "ab");
    assert!(!items[0].work_group_items[0].is_thinking_active);
    assert!(!items[0].work_group_active);
    assert_eq!(items[0].work_group_summary, "Thought once");
}

#[test]
fn finalize_collapses_groups_when_asked() {
    let mut state = ResponseState::with_auto_collapse(true);
    state.append_thinking("x");
    let items = state.finalize_after(5);
    assert!(!items[0].work_group_expanded);
    assert_eq!(items[0].work_group_elapsed_secs, 5);
    let mut state = ResponseState::new();
    state.append_thinking("x");
    let items = state.finalize_after(u64::MAX);
    assert!(items[0].work_group_expanded);
    assert_eq!(items[0].work_group_elapsed_secs, i32::MAX);
}

#[test]
fn mid_stream_snapshot_shows_pending_text() {
    let mut state = ResponseState::new();
    state.append_thinking("t");
    state.append_text("partial answer");
    let items = state.build_parsed_items_after(7);
    assert_eq!(items.len(), 2);
    assert!(items[0].work_group_active);
    assert_eq!(items[0].work_group_elapsed_secs, 7);
    assert_eq!(items[0].work_group_summary, "Thought once");
    assert_eq!(items[1].kind, "text");
    assert_eq!(items[1].text, "partial answer");
    assert!(state.current_blocks.len() == 1);
}

#[test]
fn blank_text_never_becomes_a_block() {
    let mut state = ResponseState::new();
    state.append_text("  \n\t");
    let items = state.finalize();
    assert!(items.is_empty());
}

fn text_item(text: &str) -> ParsedMarkdownItem {
    ParsedMarkdownItem::new_default("text".to_string(), text.to_string())
}

#[test]
fn loose_cards_are_gathered_into_a_group() {
    let mut running = tool_item("read");
    running.tool_status = "running".to_string();
    let group = convert_legacy_work_items(vec![thinking_item(), running]);
    assert_eq!(group.kind, "work_group");
    assert_eq!(group.work_group_items.len(), 2);
    assert!(group.work_group_active);
    assert_eq!(group.work_group_elapsed_secs, 0);
    assert_eq!(group.work_group_summary, "Read a file, thought once");

    let mut done = tool_item("edit");
    done.tool_status = "completed".to_string();
    let group = convert_legacy_work_items(vec![done]);
    assert!(!group.work_group_active);
    assert_eq!(group.work_group_summary, "Edited a file");
}

#[test]
fn shown_blocks_group_loose_cards_and_drop_blank_text() {
    let mut existing = ParsedMarkdownItem::new_default("work_group".to_string(), String::new());
    existing.work_group_summary = "Worked".to_string();
    let blocks = vec![
        thinking_item(),
        tool_item("web_search"),
        text_item("Answer"),
        text_item("  \n"),
        tool_item("ls"),
        existing,
        text_item("Done"),
        thinking_item(),
    ];
    let shown = group_legacy_work_items(blocks);
    let kinds: Vec<&str> = shown.iter().map(|b| b.kind.as_str()).collect();
    assert_eq!(kinds, vec!["work_group", "text", "work_group", "work_group", "text", "work_group"]);
    assert_eq!(shown[0].work_group_items.len(), 2);
    assert_eq!(shown[0].work_group_summary, "Searched once, thought once");
    assert_eq!(shown[1].text, "Answer");
    assert_eq!(shown[2].work_group_summary, "Listed a directory");
    assert_eq!(shown[3].work_group_summary, "Worked");
    assert_eq!(shown[5].work_group_items.len(), 1);
    assert!(!shown[5].is_thinking_active);

    assert!(group_legacy_work_items(vec![text_item(" ")]).is_empty());
}

#[test]
fn groups_and_their_entries_fold_open_and_shut() {
    let mut group = ParsedMarkdownItem::new_default("work_group".to_string(), String::new());
    group.work_group_items = vec![thinking_item(), tool_item("read")];
    let mut blocks = vec![text_item("a"), group];
    toggle_work_group_expanded(&mut blocks, 1);
    assert!(blocks[1].work_group_expanded);
    toggle_work_group_expanded(&mut blocks, 1);
    assert!(!blocks[1].work_group_expanded);
    toggle_work_group_expanded(&mut blocks, 5);
    toggle_work_item_expanded(&mut blocks, 1, 1);
    assert!(blocks[1].work_group_items[1].item_expanded);
    assert!(!blocks[1].work_group_items[0].item_expanded);
    toggle_work_item_expanded(&mut blocks, 1, 2);
    toggle_work_item_expanded(&mut blocks, 0, 0);
    assert!(!blocks[0].item_expanded);
}

#[test]
fn summary_ignores_the_order_of_entries() {
    let a = vec![thinking_item(), tool_item("read"), tool_item("edit"), thinking_item()];
    let b = vec![tool_item("edit"), thinking_item(), thinking_item(), tool_item("read")];
    assert_eq!(build_work_summary(&a), build_work_summary(&b));
    assert_eq!(build_work_summary(&a), "Read a file, edited a file, thought 2 times");
}

#[test]
fn summary_is_worked_only_without_activity() {
    let text = || ParsedMarkdownItem::new_default("text".to_string(), "hi".to_string());
    let plain = vec![text()];
    assert_eq!(build_work_summary(&plain), "Worked");
    assert_eq!(build_work_summary(&[]), "Worked");
    let with_thinking = vec![text(), thinking_item()];
    assert_ne!(build_work_summary(&with_thinking), "Worked");
    let with_tool = vec![tool_item("custom"), text()];
    assert_ne!(build_work_summary(&with_tool), "Worked");
}

#[test]
fn finished_turn_has_no_active_group_or_thinking() {
    let mut state = ResponseState::new();
    state.append_thinking("first");
    append_tool_start(&mut state, "c1", "read");
    state.append_text("between");
    state.append_thinking("second");
    let blocks = state.finalize();
    assert_eq!(blocks.len(), 3);
    for b in &blocks {
        if b.kind == "work_group" {
            assert!(!b.work_group_active);
            assert!(b.work_group_items.iter().all(|i| !i.is_thinking_active));
        }
    }
}

#[test]
fn only_the_last_group_stays_active_mid_turn() {
    let mut state = ResponseState::new();
    state.append_thinking("first");
    state.append_text("between");
    append_tool_start(&mut state, "c1", "bash");
    let blocks = state.build_parsed_items();
    let groups: Vec<&ParsedMarkdownItem> = blocks.iter().filter(|b| b.kind == "work_group").collect();
    assert_eq!(groups.len(), 2);
    assert!(!groups[0].work_group_active);
    assert!(groups[1].work_group_active);
    assert_eq!(groups[1].work_group_items[0].kind, "tool");
    assert_eq!(groups[1].work_group_items[0].tool_call_id, "c1");
}
