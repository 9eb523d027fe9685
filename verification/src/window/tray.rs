//! The system tray: what its menu entries and clicks ask for, and whether
//! the icon has to be built or removed for the preference.

use crate::text::str_eq;
use vstd::prelude::*;

verus! {

/// What a tray menu entry asks for.
#[derive(Debug, Clone, Copy, PartialEq, Eq, Structural)]
pub enum TrayAction {
    /// Show and focus the main window.
    Show,
    /// Quit the application.
    Quit,
    Nothing,
}

/// The action of the tray menu entry with id `id`.
pub open spec fn menu_action(id: Seq<char>) -> TrayAction {
    if id == "show_operon"@ {
        TrayAction::Show
    } else if id == "quit_operon"@ {
        TrayAction::Quit
    } else {
        TrayAction::Nothing
    }
}

/// See [`menu_action`].
pub fn tray_menu_action(id: &str) -> (r: TrayAction)
    ensures
        r == menu_action(id@),
{
    if str_eq(id, "show_operon") {
        TrayAction::Show
    } else if str_eq(id, "quit_operon") {
        TrayAction::Quit
    } else {
        TrayAction::Nothing
    }
}

/// A click on the tray icon.
#[derive(Debug, Clone, Copy, PartialEq, Eq, Structural)]
pub enum TrayClick {
    Click { left_button: bool, released: bool },
    DoubleClick { left_button: bool },
    Other,
}

/// Releasing the left button on the icon, or double-clicking it with the
/// left button, brings the main window back.
pub fn tray_click_restores(c: TrayClick) -> (r: bool)
    ensures
        r == match c {
            TrayClick::Click { left_button, released } => left_button && released,
            TrayClick::DoubleClick { left_button } => left_button,
            TrayClick::Other => false,
        },
{
    match c {
        TrayClick::Click { left_button, released } => left_button && released,
        TrayClick::DoubleClick { left_button } => left_button,
        TrayClick::Other => false,
    }
}

/// What turning the tray preference to `enabled` does to the icon.
#[derive(Debug, Clone, Copy, PartialEq, Eq, Structural)]
pub enum TrayChange {
    Build,
    Remove,
    Keep,
}

/// The icon is built when the tray is turned on and there is none, removed
/// when it is turned off and there is one, and left alone otherwise.
pub fn tray_change(enabled: bool, present: bool) -> (r: TrayChange)
    ensures
        r == if enabled && !present {
            TrayChange::Build
        } else if !enabled && present {
            TrayChange::Remove
        } else {
            TrayChange::Keep
        },
{
    if enabled && !present {
        TrayChange::Build
    } else if !enabled && present {
        TrayChange::Remove
    } else {
        TrayChange::Keep
    }
}

} // verus!
