//! What happens when the main window is asked to close.

use vstd::prelude::*;
use vstd::string::*;
use crate::text::same_text;

verus! {

/// The state that the window handlers share: the action that the user chose
/// for a close request, one of `hide`, `exit` and `ask`.
pub struct AppState {
    pub close_action: String,
}

/// What the window is told to do.
#[derive(Clone, Copy, Debug)]
pub enum WindowCommand {
    /// End the program.
    Exit,
    /// Hide the window.
    Hide,
    /// Minimize the window.
    Minimize,
    /// Ask the user: the window is told that a close was requested.
    Ask,
    /// Nothing.
    Nothing,
}

/// The values that the close action can take.
pub open spec fn is_close_action(action: Seq<char>) -> bool {
    action == "hide"@ || action == "exit"@ || action == "ask"@
}

impl AppState {
    /// The action that is set is one of the three values.
    pub open spec fn wf(self) -> bool {
        is_close_action(self.close_action@)
    }

    /// The state of a program that was just started: the user is asked.
    pub fn new() -> (r: AppState)
        ensures
            r.wf(),
            r.close_action@ == "ask"@,
    {
        AppState { close_action: String::from_str("ask") }
    }
}

impl Default for AppState {
    fn default() -> (r: AppState)
        ensures
            r.wf(),
            r.close_action@ == "ask"@,
    {
        AppState::new()
    }
}

/// The action that is set.
pub fn get_close_action(state: &AppState) -> (r: String)
    ensures
        r@ == state.close_action@,
{
    state.close_action.clone()
}

/// Sets the close action where `action` is one of the three values, and
/// keeps the action that was set where it is none. Returns the action that
/// is set afterwards.
pub fn set_close_action(state: &mut AppState, action: String) -> (r: String)
    ensures
        final(state).close_action@ == if is_close_action(action@) {
            action@
        } else {
            old(state).close_action@
        },
        r@ == final(state).close_action@,
        old(state).wf() ==> final(state).wf(),
{
    let a = action.as_str();
    if same_text(a, "hide") || same_text(a, "exit") || same_text(a, "ask") {
        state.close_action = action;
    }
    state.close_action.clone()
}

/// What the window does for an action that the user picked in the dialog.
pub open spec fn command_for(action: Seq<char>) -> WindowCommand {
    if action == "exit"@ {
        WindowCommand::Exit
    } else if action == "hide"@ {
        WindowCommand::Hide
    } else if action == "minimize"@ {
        WindowCommand::Minimize
    } else {
        WindowCommand::Nothing
    }
}

/// Decides what the window does for an action that the user picked.
pub fn perform_close_action(action: &str) -> (r: WindowCommand)
    ensures
        r == command_for(action@),
{
    if same_text(action, "exit") {
        WindowCommand::Exit
    } else if same_text(action, "hide") {
        WindowCommand::Hide
    } else if same_text(action, "minimize") {
        WindowCommand::Minimize
    } else {
        WindowCommand::Nothing
    }
}

/// What the window does when it is asked to close: it follows the action
/// that is set, and asks the user where none of `exit` and `hide` is.
pub fn handle_close_requested(state: &AppState) -> (r: WindowCommand)
    ensures
        r == if state.close_action@ == "exit"@ {
            WindowCommand::Exit
        } else if state.close_action@ == "hide"@ {
            WindowCommand::Hide
        } else {
            WindowCommand::Ask
        },
{
    let action = state.close_action.as_str();
    if same_text(action, "exit") {
        WindowCommand::Exit
    } else if same_text(action, "hide") {
        WindowCommand::Hide
    } else {
        WindowCommand::Ask
    }
}

} // verus!
