//! The git panel of the right sidebar: the steps of pulling, pushing and
//! syncing with the remote, and how a changed file is listed.

use crate::sidebar::{file_name_of, path_file_name};
use crate::state::{opt_ref, opt_str, AppState};
use crate::string_set::StringSet;
use crate::text::{all_ws, i64_text, int_text, is_blank, owned, str_eq, string_of};
use vstd::prelude::*;

verus! {

/// A step of talking to the remote.
#[derive(Debug, Clone, Copy, PartialEq, Eq, Structural)]
pub enum GitStep {
    /// Reading the current branch.
    Branch,
    Pull,
    Push,
}

/// How a step ended.
#[derive(Debug, Clone, Copy, PartialEq, Eq, Structural)]
pub enum GitOutcome {
    Done,
    /// The pull stopped on a merge conflict.
    MergeConflict,
    /// The remote refused the credentials.
    RemoteAuth,
    Failed,
}

/// What comes next.
#[derive(Debug, Clone, Copy, PartialEq, Eq, Structural)]
pub enum GitAction {
    Pull,
    Push,
    /// Reload the panel's file list and history.
    Refresh,
    Stop,
}

/// The operation the user asked for.
#[derive(Debug, Clone, Copy, PartialEq, Eq, Structural)]
pub enum GitCommand {
    Pull,
    Push,
    /// Pull, then push.
    Sync,
}

/// The next action of `command` after `step` ended with `outcome`. Every
/// command first reads the branch and stops if that fails. A pull refreshes
/// the panel when it succeeds; a push likewise. A sync pushes after a clean
/// pull, refreshes and stops after a conflict, stops after any other
/// failure, and refreshes once the push has ended, however it ended.
pub open spec fn git_next(command: GitCommand, step: GitStep, outcome: GitOutcome) -> GitAction {
    match step {
        GitStep::Branch => if outcome != GitOutcome::Done {
            GitAction::Stop
        } else {
            match command {
                GitCommand::Push => GitAction::Push,
                _ => GitAction::Pull,
            }
        },
        GitStep::Pull => match command {
            GitCommand::Sync => match outcome {
                GitOutcome::Done => GitAction::Push,
                GitOutcome::MergeConflict => GitAction::Refresh,
                _ => GitAction::Stop,
            },
            _ => if outcome == GitOutcome::Done {
                GitAction::Refresh
            } else {
                GitAction::Stop
            },
        },
        GitStep::Push => match command {
            GitCommand::Sync => GitAction::Refresh,
            _ => if outcome == GitOutcome::Done {
                GitAction::Refresh
            } else {
                GitAction::Stop
            },
        },
    }
}

/// See [`git_next`].
pub fn git_next_action(command: GitCommand, step: GitStep, outcome: GitOutcome) -> (r: GitAction)
    ensures
        r == git_next(command, step, outcome),
{
    match step {
        GitStep::Branch => if outcome != GitOutcome::Done {
            GitAction::Stop
        } else {
            match command {
                GitCommand::Push => GitAction::Push,
                _ => GitAction::Pull,
            }
        },
        GitStep::Pull => match command {
            GitCommand::Sync => match outcome {
                GitOutcome::Done => GitAction::Push,
                GitOutcome::MergeConflict => GitAction::Refresh,
                _ => GitAction::Stop,
            },
            _ => if outcome == GitOutcome::Done {
                GitAction::Refresh
            } else {
                GitAction::Stop
            },
        },
        GitStep::Push => match command {
            GitCommand::Sync => GitAction::Refresh,
            _ => if outcome == GitOutcome::Done {
                GitAction::Refresh
            } else {
                GitAction::Stop
            },
        },
    }
}

/// The directory part of the path `p`, as `Path::parent` gives it, when
/// there is one and it is valid UTF-8 (by the path rules of the platform
/// the library is built for, which are fixed for a build).
pub uninterp spec fn parent_of(p: Seq<char>) -> Option<Seq<char>>;

/// `Path::parent`, as text. Claimed: the result is `parent_of(p)`.
#[verifier::external_body]
fn path_parent(p: &str) -> (r: Option<String>)
    ensures
        match r {
            Some(d) => parent_of(p@) == Some(d@),
            None => parent_of(p@) is None,
        },
{
    std::path::Path::new(p).parent().and_then(|d| d.to_str()).map(|d| d.to_string())
}

/// How a changed file is listed: its name (the whole path when it has
/// none), its directory (empty when it has none), and whether its hunks
/// are shown.
pub fn changed_file_labels(path: &str, expanded: &StringSet) -> (r: (String, String, bool))
    ensures
        r.0@ == match file_name_of(path@) {
            Some(n) => n,
            None => path@,
        },
        r.1@ == match parent_of(path@) {
            Some(d) => d,
            None => seq![],
        },
        r.2 == expanded.view_set().contains(path@),
{
    proof {
        reveal_strlit("");
    }
    let name = match path_file_name(path) {
        Some(n) => n,
        None => owned(path),
    };
    let dir = match path_parent(path) {
        Some(d) => d,
        None => String::new(),
    };
    (name, dir, expanded.contains(path))
}

/// The line number column of a diff line: the number, or nothing.
pub fn line_number_text(n: Option<u32>) -> (r: String)
    ensures
        r@ == match n {
            Some(k) => int_text(k as int),
            None => seq![],
        },
{
    match n {
        Some(k) => string_of(i64_text(k as i64).as_slice()),
        None => String::new(),
    }
}

/// What an entry of the git panel's menus asks for.
#[derive(Debug, Clone, Copy, PartialEq, Eq, Structural)]
pub enum GitMenuAction {
    /// Re-sort the repository list: 0 in discovery order, 1 by name, 2 by path.
    SortRepos(u8),
    StageAll,
    UnstageAll,
    /// Discard every change, untracked files included.
    DiscardAll,
    Sync,
    Pull,
    Push,
    /// Fetch from `origin`.
    Fetch,
    /// Commit with the message, after staging everything when `stage_all`,
    /// replacing the last commit when `amend`.
    Commit { stage_all: bool, amend: bool },
    /// A commit was asked for with a blank message: nothing is committed.
    BlankMessage,
    RefreshGraph,
    /// Nothing is done for this entry (submenu headers and entries that
    /// have no backend).
    Nothing,
}

/// The action of the menu entry `id`, `message` being the commit message
/// typed in the panel. Plain commits refuse a blank message; amending
/// commits take it as it is.
pub open spec fn git_menu(id: Seq<char>, message: Seq<char>) -> GitMenuAction {
    if id == "sort_discovery"@ {
        GitMenuAction::SortRepos(0)
    } else if id == "sort_name"@ {
        GitMenuAction::SortRepos(1)
    } else if id == "sort_path"@ {
        GitMenuAction::SortRepos(2)
    } else if id == "cmd_stage_all"@ {
        GitMenuAction::StageAll
    } else if id == "cmd_unstage_all"@ {
        GitMenuAction::UnstageAll
    } else if id == "cmd_discard_all"@ {
        GitMenuAction::DiscardAll
    } else if id == "cmd_sync"@ {
        GitMenuAction::Sync
    } else if id == "pull"@ || id == "cmd_pull"@ {
        GitMenuAction::Pull
    } else if id == "push"@ || id == "cmd_push"@ {
        GitMenuAction::Push
    } else if id == "fetch"@ || id == "cmd_fetch"@ {
        GitMenuAction::Fetch
    } else if id == "cmd_commit_all"@ || id == "cmd_commit_staged"@ || id == "cmd_commit"@ {
        if all_ws(message) {
            GitMenuAction::BlankMessage
        } else {
            GitMenuAction::Commit { stage_all: id == "cmd_commit_all"@, amend: false }
        }
    } else if id == "cmd_commit_amend"@ || id == "cmd_commit_staged_amend"@ {
        GitMenuAction::Commit { stage_all: false, amend: true }
    } else if id == "cmd_commit_all_amend"@ {
        GitMenuAction::Commit { stage_all: true, amend: true }
    } else if id == "graph_refresh"@ {
        GitMenuAction::RefreshGraph
    } else {
        GitMenuAction::Nothing
    }
}

/// See [`git_menu`].
pub fn git_menu_action(item_id: &str, commit_message: &str) -> (r: GitMenuAction)
    ensures
        r == git_menu(item_id@, commit_message@),
{
    if str_eq(item_id, "sort_discovery") {
        GitMenuAction::SortRepos(0)
    } else if str_eq(item_id, "sort_name") {
        GitMenuAction::SortRepos(1)
    } else if str_eq(item_id, "sort_path") {
        GitMenuAction::SortRepos(2)
    } else if str_eq(item_id, "cmd_stage_all") {
        GitMenuAction::StageAll
    } else if str_eq(item_id, "cmd_unstage_all") {
        GitMenuAction::UnstageAll
    } else if str_eq(item_id, "cmd_discard_all") {
        GitMenuAction::DiscardAll
    } else if str_eq(item_id, "cmd_sync") {
        GitMenuAction::Sync
    } else if str_eq(item_id, "pull") || str_eq(item_id, "cmd_pull") {
        GitMenuAction::Pull
    } else if str_eq(item_id, "push") || str_eq(item_id, "cmd_push") {
        GitMenuAction::Push
    } else if str_eq(item_id, "fetch") || str_eq(item_id, "cmd_fetch") {
        GitMenuAction::Fetch
    } else if str_eq(item_id, "cmd_commit_all") || str_eq(item_id, "cmd_commit_staged") || str_eq(
        item_id,
        "cmd_commit",
    ) {
        if is_blank(commit_message) {
            GitMenuAction::BlankMessage
        } else {
            GitMenuAction::Commit { stage_all: str_eq(item_id, "cmd_commit_all"), amend: false }
        }
    } else if str_eq(item_id, "cmd_commit_amend") || str_eq(item_id, "cmd_commit_staged_amend") {
        GitMenuAction::Commit { stage_all: false, amend: true }
    } else if str_eq(item_id, "cmd_commit_all_amend") {
        GitMenuAction::Commit { stage_all: true, amend: true }
    } else if str_eq(item_id, "graph_refresh") {
        GitMenuAction::RefreshGraph
    } else {
        GitMenuAction::Nothing
    }
}

/// The workspace the git panel works in: the current project's directory
/// when a project session with a non-blank directory is active, else the
/// general workspace (`default_workspace`, or `.` when it cannot be found),
/// with whether it is the project's.
pub open spec fn workspace_of(project_dir: Option<Seq<char>>, default_workspace: Option<Seq<char>>) -> (Seq<char>, bool) {
    match project_dir {
        Some(d) if !all_ws(d) => (d, true),
        _ => (
            match default_workspace {
                Some(w) => w,
                None => "."@,
            },
            false,
        ),
    }
}

/// See [`workspace_of`]; `default_workspace` is the general workspace
/// directory as the configured paths give it, when they can be read.
pub fn resolve_workspace(state: &AppState, default_workspace: Option<&str>) -> (r: (String, bool))
    ensures
        (r.0@, r.1) == workspace_of(opt_str(state.current_project_dir), opt_ref(default_workspace)),
{
    if let Some(dir) = state.current_project_dir() {
        if !is_blank(dir) {
            return (owned(dir), true);
        }
    }
    match default_workspace {
        Some(w) => (owned(w), false),
        None => (owned("."), false),
    }
}

} // verus!
