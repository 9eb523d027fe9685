use operon_gui::conversation::{turn_messages, HistoryBlock, HistoryMessage, MessageRole};

fn text(s: &str) -> HistoryBlock {
    HistoryBlock::Text(s.to_string())
}

fn call(id: &str, name: &str, args: &str) -> HistoryBlock {
    HistoryBlock::ToolCall { id: id.to_string(), name: name.to_string(), arguments_json: args.to_string() }
}

fn result(id: &str, is_error: bool, content: &str) -> HistoryBlock {
    HistoryBlock::ToolResult { call_id: id.to_string(), is_error, content: content.to_string() }
}

fn msg(role: MessageRole, content: Vec<HistoryBlock>) -> HistoryMessage {
    HistoryMessage { role, content }
}

#[test]
fn stored_turn_becomes_user_and_assistant_entries() {
    let turn = vec![
        msg(MessageRole::Other, vec![text("system prompt")]),
        msg(MessageRole::User, vec![text("Fix **main**"), HistoryBlock::Other]),
        msg(
            MessageRole::Assistant,
            vec![
                HistoryBlock::Reasoning("Looking".to_string()),
                call("c1", "read", "{\"path\":\"src/main.rs\"}"),
                call("c2", "edit", "{\"path\":\"a.rs\",\"__body__\":\"@@ -1 +1 @@\\n-x\\n+y\"}"),
                call("c3", "bash", "{}"),
            ],
        ),
        msg(MessageRole::Tool, vec![result("c1", false, "fn main() {}"), result("c2", true, "no match")]),
        msg(MessageRole::Assistant, vec![text("Done."), text("Anything else?")]),
        msg(MessageRole::User, vec![text("No")]),
    ];
    let entries = turn_messages(&turn);
    assert_eq!(entries.len(), 3);

    let (is_user, text0, items0) = &entries[0];
    assert!(*is_user);
    assert_eq!(text0, "Fix **main**");
    assert_eq!(items0.len(), 1);
    assert_eq!(items0[0].kind, "p");

    let (is_user, text1, items1) = &entries[1];
    assert!(!*is_user);
    assert_eq!(text1, "Done.\nAnything else?");
    let kinds: Vec<&str> = items1.iter().map(|i| i.kind.as_str()).collect();
    assert_eq!(kinds, vec!["thinking", "tool", "tool", "tool", "p", "p"]);
    assert_eq!(items1[0].text, "Looking");

    let read = &items1[1];
    assert_eq!(read.tool_call_id, "c1");
    assert_eq!(read.tool_status, "completed");
    assert_eq!(read.tool_result, "fn main() {}");
    assert_eq!(read.tool_args, "{\n  \"path\": \"src/main.rs\"\n}");
    assert!(!read.tool_is_diff);

    let edit = &items1[2];
    assert_eq!(edit.tool_status, "failed");
    assert_eq!(edit.tool_result, "no match");
    assert!(edit.tool_is_diff);
    assert_eq!(edit.tool_added_count, 1);
    assert_eq!(edit.tool_deleted_count, 1);

    let pending = &items1[3];
    assert_eq!(pending.tool_status, "running");
    assert_eq!(pending.tool_result, "");
    assert_eq!(pending.tool_args, "{}");

    let (is_user, text2, _) = &entries[2];
    assert!(*is_user);
    assert_eq!(text2, "No");
}

#[test]
fn trailing_assistant_blocks_form_the_last_entry() {
    let turn = vec![
        msg(MessageRole::User, vec![text("Hi")]),
        msg(MessageRole::Assistant, vec![HistoryBlock::Reasoning("hmm".to_string())]),
    ];
    let entries = turn_messages(&turn);
    assert_eq!(entries.len(), 2);
    assert!(!entries[1].0);
    assert_eq!(entries[1].1, "");
    assert_eq!(entries[1].2.len(), 1);
    assert!(turn_messages(&Vec::new()).is_empty());
}
