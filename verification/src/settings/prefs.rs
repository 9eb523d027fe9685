//! The preferences model: what the shell does on close, how activity is
//! drawn, and which notifications and behaviours are on.

use vstd::prelude::*;

verus! {

/// Action to perform when the user clicks the main window's Close (X) button.
#[derive(Debug, Clone, Copy, PartialEq, Eq, Structural)]
pub enum CloseButtonAction {
    /// Exit the application entirely.
    Exit,
    /// Hide the window to the system tray.
    MinimizeToTray,
}

impl Default for CloseButtonAction {
    fn default() -> (r: Self)
        ensures
            r == CloseButtonAction::Exit,
    {
        CloseButtonAction::Exit
    }
}

/// Animated orb style displayed in the collapsed work activity summary.
#[derive(Debug, Clone, Copy, PartialEq, Eq, Structural)]
pub enum ThinkingOrbStyle {
    /// Ribbon-like composing animation.
    Composing,
    /// Lattice-style solving animation.
    Solving,
    /// Pulsing breathing-ring animation.
    Breathing,
}

impl Default for ThinkingOrbStyle {
    fn default() -> (r: Self)
        ensures
            r == ThinkingOrbStyle::Composing,
    {
        ThinkingOrbStyle::Composing
    }
}

/// The selector index of a style.
pub open spec fn orb_index(s: ThinkingOrbStyle) -> i32 {
    match s {
        ThinkingOrbStyle::Composing => 0,
        ThinkingOrbStyle::Solving => 1,
        ThinkingOrbStyle::Breathing => 2,
    }
}

/// The style a selector index stands for; unknown indexes mean the default style.
pub open spec fn orb_of_index(idx: i32) -> ThinkingOrbStyle {
    if idx == 1 {
        ThinkingOrbStyle::Solving
    } else if idx == 2 {
        ThinkingOrbStyle::Breathing
    } else {
        ThinkingOrbStyle::Composing
    }
}

impl ThinkingOrbStyle {
    /// Converts the persisted enum into the selector index.
    pub fn to_index(self) -> (r: i32)
        ensures
            r == orb_index(self),
    {
        match self {
            ThinkingOrbStyle::Composing => 0,
            ThinkingOrbStyle::Solving => 1,
            ThinkingOrbStyle::Breathing => 2,
        }
    }

    /// Converts the selector index into a persisted enum value.
    pub fn from_index(idx: i32) -> (r: Self)
        ensures
            r == orb_of_index(idx),
    {
        if idx == 1 {
            ThinkingOrbStyle::Solving
        } else if idx == 2 {
            ThinkingOrbStyle::Breathing
        } else {
            ThinkingOrbStyle::Composing
        }
    }
}

/// Reading back the index of a style gives the style.
pub proof fn lemma_orb_index_round_trip(s: ThinkingOrbStyle)
    ensures
        orb_of_index(orb_index(s)) == s,
{
}

/// The indexes of the selector are exactly 0, 1 and 2, and each names its style.
pub proof fn lemma_orb_index_range(idx: i32)
    ensures
        0 <= orb_index(orb_of_index(idx)) <= 2,
        (0 <= idx <= 2) ==> orb_index(orb_of_index(idx)) == idx,
{
}

/// GUI preferences state saved on disk.
#[derive(Debug, Clone, Copy, PartialEq, Eq, Structural)]
pub struct GuiPrefs {
    /// Whether Operon is set to launch automatically on OS startup.
    pub autostart_enabled: bool,
    /// Whether the system tray icon and minimize-to-tray are active.
    pub minimize_to_tray_enabled: bool,
    /// Whether Operon starts minimized to the system tray.
    pub start_minimized: bool,
    /// Action taken when the main window close (X) button is clicked.
    pub close_button_action: CloseButtonAction,
    /// Which animated orb style collapsed activity summaries use.
    pub thinking_orb_style: ThinkingOrbStyle,
    /// Whether the chat scrolls to the bottom as response tokens arrive.
    pub auto_scroll_stream: bool,
    /// Whether a desktop notification is sent when an agent asks for permission.
    pub notify_on_permission_request: bool,
    /// Whether a desktop notification is sent when a response finishes.
    pub notify_on_response_complete: bool,
    /// Whether activity summary pills collapse automatically.
    pub auto_collapse_reasoning_tools: bool,
}

/// The preferences of a fresh installation.
pub open spec fn default_prefs() -> GuiPrefs {
    GuiPrefs {
        autostart_enabled: false,
        minimize_to_tray_enabled: false,
        start_minimized: false,
        close_button_action: CloseButtonAction::Exit,
        thinking_orb_style: ThinkingOrbStyle::Composing,
        auto_scroll_stream: true,
        notify_on_permission_request: true,
        notify_on_response_complete: false,
        auto_collapse_reasoning_tools: false,
    }
}

/// Default for `auto_scroll_stream` when a settings file leaves it out.
pub fn default_auto_scroll_stream() -> (r: bool)
    ensures
        r == default_prefs().auto_scroll_stream,
{
    true
}

/// Default for `notify_on_permission_request` when a settings file leaves it out.
pub fn default_notify_on_permission_request() -> (r: bool)
    ensures
        r == default_prefs().notify_on_permission_request,
{
    true
}

/// Default for `notify_on_response_complete` when a settings file leaves it out.
pub fn default_notify_on_response_complete() -> (r: bool)
    ensures
        r == default_prefs().notify_on_response_complete,
{
    false
}

/// Default for `auto_collapse_reasoning_tools` when a settings file leaves it out.
pub fn default_auto_collapse_reasoning_tools() -> (r: bool)
    ensures
        r == default_prefs().auto_collapse_reasoning_tools,
{
    false
}

impl Default for GuiPrefs {
    fn default() -> (r: Self)
        ensures
            r == default_prefs(),
    {
        GuiPrefs {
            autostart_enabled: false,
            minimize_to_tray_enabled: false,
            start_minimized: false,
            close_button_action: CloseButtonAction::Exit,
            thinking_orb_style: ThinkingOrbStyle::Composing,
            auto_scroll_stream: default_auto_scroll_stream(),
            notify_on_permission_request: default_notify_on_permission_request(),
            notify_on_response_complete: default_notify_on_response_complete(),
            auto_collapse_reasoning_tools: default_auto_collapse_reasoning_tools(),
        }
    }
}

} // verus!
