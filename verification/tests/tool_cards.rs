use operon_gui::executor::events::{
    get_permission_display_info, handle_session_event, SessionUpdate, UiUpdate,
};
use operon_gui::main_content::markdown::ParsedMarkdownItem;
use operon_gui::main_content::permission::{
    append_approval_required, append_approval_resolved, append_permission_denied_event,
};
use operon_gui::main_content::reasoning::ResponseState;
use operon_gui::main_content::tools::cards::{
    append_tool_args_ready, append_tool_body_delta, append_tool_detected, append_tool_result,
    append_tool_start, get_tool_friendly_title,
};
use operon_gui::main_content::tools::diff::{apply_diff_overlay, parse_diff};
use operon_gui::main_content::tools::json::{parse_tool_args_to_value, ToolArgs};

#[test]
fn friendly_titles_name_the_file() {
    assert_eq!(get_tool_friendly_title("edit", r#"{"path":"src/lib.rs"}"#, false), "Editing lib.rs");
    assert_eq!(get_tool_friendly_title("write", r#"{"path":"a\\b.txt"}"#, true), "Edited b.txt");
    assert_eq!(get_tool_friendly_title("read", "", false), "Reading file");
    assert_eq!(get_tool_friendly_title("ls", r#"{"dir":"/tmp/x"}"#, true), "Listed x");
    assert_eq!(get_tool_friendly_title("list_dir", "{}", false), "Listing directory");
    assert_eq!(get_tool_friendly_title("bash", "{}", true), "Executed command");
    assert_eq!(get_tool_friendly_title("grep", "{}", false), "Running grep");
    assert_eq!(get_tool_friendly_title("read", r#"{"path":7,"paths":"x/y"}"#, true), "Read file");
}

#[test]
fn runner_formatted_arguments_carry_their_body() {
    let args = "{\"path\":\"f.txt\"}\n__body__:\nline one\nline two";
    assert_eq!(
        parse_tool_args_to_value(args),
        ToolArgs::WithBody("{\"path\":\"f.txt\"}".to_string(), "line one\nline two".to_string())
    );
    assert_eq!(parse_tool_args_to_value("not json"), ToolArgs::Null);
    assert_eq!(parse_tool_args_to_value("[1]"), ToolArgs::Document("[1]".to_string()));
    let (lines, added, deleted) = parse_diff("write", args);
    assert_eq!(lines.len(), 2);
    assert_eq!(lines[1].kind, "added");
    assert_eq!(lines[1].text, "line two");
    assert_eq!((added, deleted), (2, 0));
}

#[test]
fn edit_diffs_count_added_and_removed_lines() {
    let args = r#"{"__body__":"@@ -1,2 +1,2 @@\n-old\n+new\n same\n\nplain"}"#;
    let (lines, added, deleted) = parse_diff("edit", args);
    let kinds: Vec<&str> = lines.iter().map(|l| l.kind.as_str()).collect();
    assert_eq!(kinds, vec!["removed", "added", "context", "context"]);
    assert_eq!(lines[0].text, "old");
    assert_eq!(lines[2].text, "same");
    assert_eq!(lines[3].text, "plain");
    assert_eq!((added, deleted), (1, 1));
    assert_eq!(parse_diff("read", args).0.len(), 0);
    assert_eq!(parse_diff("edit", r#"{"content":"x"}"#).0.len(), 0);
}

#[test]
fn diff_overlay_only_touches_file_edits() {
    let mut item = ParsedMarkdownItem::new_default("tool".to_string(), String::new());
    apply_diff_overlay(&mut item, "write", r#"{"content":"a\nb\nc"}"#);
    assert!(item.tool_is_diff);
    assert_eq!(item.tool_added_count, 3);
    let mut other = ParsedMarkdownItem::new_default("tool".to_string(), String::new());
    apply_diff_overlay(&mut other, "bash", r#"{"content":"a"}"#);
    assert!(!other.tool_is_diff);
}

#[test]
fn streamed_call_is_renamed_when_it_starts() {
    let mut state = ResponseState::new();
    append_tool_detected(&mut state, "3-0", "read");
    append_tool_start(&mut state, "toolu-3-0", "read");
    let items = state.build_parsed_items();
    assert_eq!(items.len(), 1);
    assert_eq!(items[0].work_group_items.len(), 1);
    assert_eq!(items[0].work_group_items[0].tool_call_id, "toolu-3-0");
    append_tool_args_ready(&mut state, "toolu-3-0", "read", r#"{"path":"docs/a.md"}"#);
    append_tool_body_delta(&mut state, "toolu-3-0", "ignored");
    append_tool_result(&mut state, "toolu-3-0", "read", false, r#"{"content":"hello"}"#);
    let items = state.finalize();
    let card = &items[0].work_group_items[0];
    assert_eq!(card.tool_status, "completed");
    assert_eq!(card.tool_result, "hello");
    assert_eq!(card.tool_title, "Read file");
    assert!(card.tool_args.contains("docs/a.md"));
    assert_eq!(items[0].work_group_summary, "Read a file");
}

#[test]
fn results_without_a_start_add_a_failed_card() {
    let mut state = ResponseState::new();
    append_tool_result(&mut state, "c9", "bash", true, "plain output");
    let items = state.finalize();
    let card = &items[0].work_group_items[0];
    assert_eq!(card.tool_status, "failed");
    assert_eq!(card.tool_result, "plain output");
    assert_eq!(card.tool_title, "Executed command");
}

#[test]
fn permission_prompts_are_resolved_by_id() {
    let mut state = ResponseState::new();
    state.append_text("Before asking");
    append_approval_required(&mut state, "p1", "write", "/x/y.txt", "needs write", "{\"a\":1}");
    assert_eq!(state.current_blocks.len(), 2);
    assert_eq!(state.current_blocks[0].kind, "text");
    assert_eq!(state.current_blocks[1].permission_status, "pending");
    assert!(state.current_blocks[1].permission_args.contains("\"a\": 1"));
    append_approval_resolved(&mut state, "p1", false);
    assert_eq!(state.current_blocks[1].permission_status, "denied");
    append_approval_resolved(&mut state, "unknown", true);
    assert_eq!(state.current_blocks[1].permission_status, "denied");
}

#[test]
fn policy_denial_marks_latest_pending_prompt() {
    let mut state = ResponseState::new();
    append_approval_required(&mut state, "a", "read", "", "", "");
    append_approval_required(&mut state, "b", "read", "", "", "");
    append_permission_denied_event(&mut state, "read", "", "");
    assert_eq!(state.current_blocks[0].permission_status, "pending");
    assert_eq!(state.current_blocks[1].permission_status, "denied");
    assert_eq!(state.current_blocks[1].permission_args, "");
}

#[test]
fn permission_display_info_names_action_and_target() {
    assert_eq!(
        get_permission_display_info("write", "C:\\w\\notes.md", ""),
        ("edit".to_string(), "notes.md".to_string())
    );
    assert_eq!(
        get_permission_display_info("bash", "", r#"{"command":"ls -la"}"#),
        ("execute command".to_string(), "ls -la".to_string())
    );
    assert_eq!(
        get_permission_display_info("list_tools", "", "{}"),
        ("run list_tools".to_string(), "available tools".to_string())
    );
    assert_eq!(
        get_permission_display_info("web_fetch", "", r#"{"paths":"a/b/c.html"}"#),
        ("fetch web page".to_string(), "c.html".to_string())
    );
}

#[test]
fn session_events_drive_the_turn() {
    let mut state = ResponseState::new();
    let u = handle_session_event(&mut state, SessionUpdate::ThinkingDelta { text: "hm".to_string() });
    assert!(matches!(u, UiUpdate::Blocks(ref b) if b.len() == 1));
    let u = handle_session_event(
        &mut state,
        SessionUpdate::ApprovalRequired {
            id: "p".to_string(),
            tool: "delete".to_string(),
            path: Some("/tmp/old.log".to_string()),
            reason: "cleanup".to_string(),
            args_json: "{}".to_string(),
        },
    );
    match u {
        UiUpdate::PermissionPrompt { action, target, path, .. } => {
            assert_eq!(action, "delete");
            assert_eq!(target, "old.log");
            assert_eq!(path, "/tmp/old.log");
        }
        _ => panic!("expected a permission prompt"),
    }
    let u = handle_session_event(
        &mut state,
        SessionUpdate::ContextUsageUpdated { current_context_tokens: 15300, context_window: 128000 },
    );
    assert!(matches!(u, UiUpdate::ContextUsage { ref text, .. } if text == "15k/128k"));
    let u = handle_session_event(&mut state, SessionUpdate::Other);
    assert!(matches!(u, UiUpdate::Nothing));
}

#[test]
fn arguments_arriving_redraw_the_card() {
    let mut state = ResponseState::new();
    let u = handle_session_event(
        &mut state,
        SessionUpdate::ToolCallStart { call_id: "c1".to_string(), name: "edit".to_string() },
    );
    assert!(matches!(u, UiUpdate::Blocks(ref b) if b[0].work_group_items[0].tool_title == "Editing file"));
    let u = handle_session_event(
        &mut state,
        SessionUpdate::ToolCallArgsReady {
            call_id: "c1".to_string(),
            name: "edit".to_string(),
            args_json: r#"{"path":"src/lib.rs"}"#.to_string(),
        },
    );
    match u {
        UiUpdate::Blocks(b) => {
            let card = &b[0].work_group_items[0];
            assert_eq!(card.tool_title, "Editing lib.rs");
            assert!(card.tool_args.contains("src/lib.rs"));
        }
        _ => panic!("expected the turn to be redrawn"),
    }
}
