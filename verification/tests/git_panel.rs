use operon_gui::git::{
    changed_file_labels, git_menu_action, git_next_action, line_number_text, GitAction, GitCommand,
    GitMenuAction, GitOutcome, GitStep,
};
use operon_gui::string_set::StringSet;

#[test]
fn sync_pulls_then_pushes_then_refreshes() {
    assert_eq!(git_next_action(GitCommand::Sync, GitStep::Branch, GitOutcome::Done), GitAction::Pull);
    assert_eq!(git_next_action(GitCommand::Sync, GitStep::Branch, GitOutcome::Failed), GitAction::Stop);
    assert_eq!(git_next_action(GitCommand::Sync, GitStep::Pull, GitOutcome::Done), GitAction::Push);
    assert_eq!(git_next_action(GitCommand::Sync, GitStep::Pull, GitOutcome::MergeConflict), GitAction::Refresh);
    assert_eq!(git_next_action(GitCommand::Sync, GitStep::Pull, GitOutcome::RemoteAuth), GitAction::Stop);
    assert_eq!(git_next_action(GitCommand::Sync, GitStep::Push, GitOutcome::RemoteAuth), GitAction::Refresh);
    assert_eq!(git_next_action(GitCommand::Pull, GitStep::Pull, GitOutcome::MergeConflict), GitAction::Stop);
    assert_eq!(git_next_action(GitCommand::Pull, GitStep::Pull, GitOutcome::Done), GitAction::Refresh);
    assert_eq!(git_next_action(GitCommand::Push, GitStep::Branch, GitOutcome::Done), GitAction::Push);
    assert_eq!(git_next_action(GitCommand::Push, GitStep::Push, GitOutcome::Failed), GitAction::Stop);
}

#[test]
fn changed_files_are_listed_by_name_and_directory() {
    let mut expanded = StringSet::new();
    expanded.insert("src/main.rs");
    assert_eq!(changed_file_labels("src/main.rs", &expanded), ("main.rs".to_string(), "src".to_string(), true));
    assert_eq!(changed_file_labels("README.md", &expanded), ("README.md".to_string(), String::new(), false));
    assert_eq!(line_number_text(Some(42)), "42");
    assert_eq!(line_number_text(None), "");
}

#[test]
fn menu_entries_dispatch_and_blank_commits_are_refused() {
    assert_eq!(git_menu_action("sort_name", ""), GitMenuAction::SortRepos(1));
    assert_eq!(git_menu_action("cmd_push", ""), GitMenuAction::Push);
    assert_eq!(git_menu_action("fetch", ""), GitMenuAction::Fetch);
    assert_eq!(git_menu_action("cmd_commit_all", "  \n"), GitMenuAction::BlankMessage);
    assert_eq!(git_menu_action("cmd_commit", ""), GitMenuAction::BlankMessage);
    assert_eq!(
        git_menu_action("cmd_commit_all", "fix"),
        GitMenuAction::Commit { stage_all: true, amend: false }
    );
    assert_eq!(
        git_menu_action("cmd_commit_staged", "fix"),
        GitMenuAction::Commit { stage_all: false, amend: false }
    );
    assert_eq!(git_menu_action("cmd_commit_amend", ""), GitMenuAction::Commit { stage_all: false, amend: true });
    assert_eq!(git_menu_action("graph_refresh", ""), GitMenuAction::RefreshGraph);
    assert_eq!(git_menu_action("stash_sub", ""), GitMenuAction::Nothing);
    assert_eq!(git_menu_action("cmd_merge", "x"), GitMenuAction::Nothing);
}

#[test]
fn test_resolve_workspace_project_session() {
    let mut state = operon_gui::state::AppState::new(operon_gui::settings::prefs::GuiPrefs::default());
    state.set_current_project_dir(Some("/path/to/project".to_string()));
    let (path, is_project) = operon_gui::git::resolve_workspace(&state, Some("/home/u/ws"));
    assert!(is_project);
    assert_eq!(path, "/path/to/project");
}

#[test]
fn test_resolve_workspace_general_session() {
    let mut state = operon_gui::state::AppState::new(operon_gui::settings::prefs::GuiPrefs::default());
    state.set_current_project_dir(None);
    let (_, is_project) = operon_gui::git::resolve_workspace(&state, Some("/home/u/ws"));
    assert!(!is_project);
    state.set_current_project_dir(Some("  ".to_string()));
    assert_eq!(operon_gui::git::resolve_workspace(&state, None), (".".to_string(), false));
}
