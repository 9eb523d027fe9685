//! The general page of the settings window: start-up, tray and close-button
//! behaviour.

use crate::settings::prefs::{CloseButtonAction, GuiPrefs};
use vstd::prelude::*;

verus! {

/// The selector index of a close-button action.
pub open spec fn close_index(a: CloseButtonAction) -> i32 {
    match a {
        CloseButtonAction::Exit => 0,
        CloseButtonAction::MinimizeToTray => 1,
    }
}

/// The action a selector index stands for; any index but 1 means exiting.
pub open spec fn close_of_index(idx: i32) -> CloseButtonAction {
    if idx == 1 {
        CloseButtonAction::MinimizeToTray
    } else {
        CloseButtonAction::Exit
    }
}

/// See [`close_index`].
pub fn close_action_index(a: CloseButtonAction) -> (r: i32)
    ensures
        r == close_index(a),
{
    match a {
        CloseButtonAction::Exit => 0,
        CloseButtonAction::MinimizeToTray => 1,
    }
}

/// See [`close_of_index`].
pub fn close_action_of_index(idx: i32) -> (r: CloseButtonAction)
    ensures
        r == close_of_index(idx),
{
    if idx == 1 {
        CloseButtonAction::MinimizeToTray
    } else {
        CloseButtonAction::Exit
    }
}

/// Reading back the index of an action gives the action.
pub proof fn lemma_close_index_round_trip(a: CloseButtonAction)
    ensures
        close_of_index(close_index(a)) == a,
{
}

/// What the general page shows: the start-up toggle follows the operating
/// system's record when it can be read and the saved preference otherwise.
pub struct GeneralPage {
    pub autostart_enabled: bool,
    pub minimize_to_tray_enabled: bool,
    pub start_minimized: bool,
    pub close_button_action: i32,
}

/// The page for `prefs`, `os_autostart` being what the system reports.
pub fn general_page(prefs: &GuiPrefs, os_autostart: Option<bool>) -> (r: GeneralPage)
    ensures
        r.autostart_enabled == match os_autostart {
            Some(b) => b,
            None => prefs.autostart_enabled,
        },
        r.minimize_to_tray_enabled == prefs.minimize_to_tray_enabled,
        r.start_minimized == prefs.start_minimized,
        r.close_button_action == close_index(prefs.close_button_action),
{
    GeneralPage {
        autostart_enabled: match os_autostart {
            Some(b) => b,
            None => prefs.autostart_enabled,
        },
        minimize_to_tray_enabled: prefs.minimize_to_tray_enabled,
        start_minimized: prefs.start_minimized,
        close_button_action: close_action_index(prefs.close_button_action),
    }
}

/// Whether the close button can do what it is set to: it only minimizes to
/// the tray while the tray is on.
pub open spec fn close_action_possible(p: GuiPrefs) -> bool {
    p.close_button_action == CloseButtonAction::MinimizeToTray ==> p.minimize_to_tray_enabled
}

/// Turns the tray on or off. Turning it off while the close button
/// minimizes to it makes the close button exit instead; the result tells
/// whether that happened. Either way the close button is left able to do
/// what it is set to.
pub fn set_minimize_to_tray(prefs: &mut GuiPrefs, enabled: bool) -> (reset: bool)
    ensures
        close_action_possible(*final(prefs)),
        reset == (!enabled && old(prefs).close_button_action == CloseButtonAction::MinimizeToTray),
        *final(prefs) == (GuiPrefs {
            minimize_to_tray_enabled: enabled,
            close_button_action: if reset {
                CloseButtonAction::Exit
            } else {
                old(prefs).close_button_action
            },
            ..*old(prefs)
        }),
{
    prefs.minimize_to_tray_enabled = enabled;
    let reset = !enabled && prefs.close_button_action == CloseButtonAction::MinimizeToTray;
    if reset {
        prefs.close_button_action = CloseButtonAction::Exit;
    }
    reset
}

/// What the close button does: hide the window to the tray when the tray is
/// on and the button is set to minimize to it; exit the application
/// otherwise.
pub open spec fn hides_to_tray(p: GuiPrefs) -> bool {
    p.minimize_to_tray_enabled && p.close_button_action == CloseButtonAction::MinimizeToTray
}

/// See [`hides_to_tray`].
pub fn close_hides_to_tray(prefs: &GuiPrefs) -> (r: bool)
    ensures
        r == hides_to_tray(*prefs),
{
    prefs.minimize_to_tray_enabled && prefs.close_button_action == CloseButtonAction::MinimizeToTray
}

/// Whenever the close button can do what it is set to (as turning the tray
/// on or off leaves it), it hides to the tray exactly when it is set to.
pub proof fn lemma_close_does_what_it_is_set_to(p: GuiPrefs)
    requires
        close_action_possible(p),
    ensures
        hides_to_tray(p) == (p.close_button_action == CloseButtonAction::MinimizeToTray),
{
}

} // verus!
