//! The desktop shell's decisions: what a tray menu entry does, and which
//! close and exit requests keep the app alive in the tray.

use crate::text::same_chars;
use vstd::prelude::*;

verus! {

/// What a tray menu entry asks for.
#[derive(Clone, Copy, Debug, PartialEq, Eq, Structural)]
pub enum TrayAction {
    /// Create a task and show the window so the list shows it.
    NewTask,
    /// Show and focus the main window (re-opening it if it was destroyed).
    ShowWindow,
    /// Open the settings window.
    OpenSettings,
    /// Really quit.
    Quit,
    /// Not an entry of this menu.
    Ignore,
}

/// The tray action of a menu entry id.
pub open spec fn tray_action_of(id: Seq<char>) -> TrayAction {
    if id == "new"@ {
        TrayAction::NewTask
    } else if id == "show_all"@ {
        TrayAction::ShowWindow
    } else if id == "settings"@ {
        TrayAction::OpenSettings
    } else if id == "quit"@ {
        TrayAction::Quit
    } else {
        TrayAction::Ignore
    }
}

/// The tray action of a menu entry id.
pub fn tray_action(id: &str) -> (a: TrayAction)
    ensures
        a == tray_action_of(id@),
{
    if same_chars(id, "new") {
        TrayAction::NewTask
    } else if same_chars(id, "show_all") {
        TrayAction::ShowWindow
    } else if same_chars(id, "settings") {
        TrayAction::OpenSettings
    } else if same_chars(id, "quit") {
        TrayAction::Quit
    } else {
        TrayAction::Ignore
    }
}

/// Label of the single main window (list and detail views).
pub open spec fn main_label() -> Seq<char> {
    "main"@
}

/// The label of the main window.
pub fn main_window_label() -> (r: &'static str)
    ensures
        r@ == main_label(),
{
    "main"
}

/// Closing the main window only hides it to the tray; other windows (the
/// settings) really close.
pub fn hides_on_close(label: &str) -> (b: bool)
    ensures
        b == (label@ == main_label()),
{
    same_chars(label, "main")
}

/// An exit request without an exit code (the last window went away) keeps
/// the app alive in the tray; an explicit exit (the tray's Quit) goes
/// through.
pub fn keeps_running_on_exit(code: Option<i32>) -> (b: bool)
    ensures
        b == (code is None),
{
    code.is_none()
}

} // verus!
