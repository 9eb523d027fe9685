use operon_gui::settings::permissions::{
    directory_list, permission_items, permission_rows_query, target_mode, toggle_group_expanded, PermissionRow,
};
use operon_gui::string_set::StringSet;
use operon_gui::window::menu::Platform;

fn row(key: &str, kind: &str, group: &str, mode: &str, base: &str) -> PermissionRow {
    PermissionRow {
        key: key.to_string(),
        label: key.to_uppercase(),
        mode: mode.to_string(),
        base_mode: base.to_string(),
        is_explicit: mode != base,
        kind: kind.to_string(),
        group_key: group.to_string(),
    }
}

fn rows() -> Vec<PermissionRow> {
    vec![
        row("fs", "group", "", "allow", "allow"),
        row("read", "tool", "fs", "allow", "allow"),
        row("git", "group", "", "ask", "ask"),
        row("write", "tool", "fs", "deny", "ask"),
        row("commit", "tool", "git", "ask", "ask"),
        row("web", "group", "", "ask", "ask"),
        row("stray", "tool", "none", "ask", "ask"),
    ]
}

#[test]
fn expanded_groups_list_their_tools() {
    let mut expanded = StringSet::new();
    let collapsed = permission_items(&rows(), &expanded);
    let keys: Vec<&str> = collapsed.iter().map(|i| i.key.as_str()).collect();
    assert_eq!(keys, vec!["fs", "git", "web"]);
    assert!(collapsed[0].has_tools && collapsed[1].has_tools && !collapsed[2].has_tools);
    assert!(!collapsed[0].is_expanded);
    assert_eq!(collapsed[0].subtitle, "group key: fs · default: allow");

    toggle_group_expanded(&mut expanded, "fs");
    let open = permission_items(&rows(), &expanded);
    let keys: Vec<&str> = open.iter().map(|i| i.key.as_str()).collect();
    assert_eq!(keys, vec!["fs", "read", "write", "git", "web"]);
    assert!(open[0].is_expanded);
    assert_eq!(open[2].subtitle, "tool key: write · default: ask");
    assert_eq!(open[2].mode, "deny");
    assert!(open[2].is_explicit);
    assert!(!open[2].is_expanded && !open[2].has_tools);

    toggle_group_expanded(&mut expanded, "fs");
    assert!(!expanded.contains("fs"));
}

#[test]
fn picking_the_inherited_mode_clears_the_setting() {
    let rows = rows();
    assert_eq!(target_mode(&rows, "write", "tool", "ask"), None);
    assert_eq!(target_mode(&rows, "write", "tool", "allow"), Some("allow".to_string()));
    assert_eq!(target_mode(&rows, "write", "group", "ask"), Some("ask".to_string()));
    assert_eq!(target_mode(&rows, "unknown", "tool", "deny"), Some("deny".to_string()));
}

#[test]
fn rows_are_loaded_for_the_global_tab_or_a_directory() {
    assert_eq!(permission_rows_query(0, 0, ""), None);
    assert_eq!(permission_rows_query(1, 0, ""), Some(("owner".to_string(), None)));
    assert_eq!(
        permission_rows_query(0, 1, "/work"),
        Some(("external".to_string(), Some("/work".to_string())))
    );
}

#[test]
fn workspace_directory_is_listed_first() {
    let dirs = vec!["/home/a".to_string(), "/home/b".to_string()];
    let (list, ws) = directory_list(&dirs, "/home/ws", Platform::Linux);
    assert_eq!(list, vec!["/home/ws", "/home/a", "/home/b"]);
    assert_eq!(ws, "/home/ws");
    let (list, _) = directory_list(&dirs, "/home/b", Platform::Linux);
    assert_eq!(list, vec!["/home/a", "/home/b"]);
    let (list, ws) = directory_list(&dirs, "", Platform::MacOs);
    assert_eq!(list.len(), 2);
    assert_eq!(ws, "");

    let win = vec![r"\\?\C:\work".to_string(), r"\\?\UNC\srv\share".to_string()];
    let (list, ws) = directory_list(&win, r"\\?\C:\work", Platform::Windows);
    assert_eq!(list, vec![r"C:\work", r"\\srv\share"]);
    assert_eq!(ws, r"C:\work");
    let (list, _) = directory_list(&win, r"\\?\C:\work", Platform::Linux);
    assert_eq!(list[0], r"\\?\C:\work");
    assert_eq!(list.len(), 2);
}
