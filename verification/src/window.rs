//! What closing the main window does (`close_mode`: `hide`, `quit` or
//! `ask`), and what the user's answer to the close question sets.

use vstd::prelude::*;
use crate::text::str_eq;

verus! {

/// The settings key of the close behaviour.
pub const KEY_CLOSE_MODE: &'static str = "close_mode";

/// The settings key of the global proxy.
pub const KEY_GLOBAL_PROXY: &'static str = "global_proxy";

/// The settings key of the failover configuration.
pub const KEY_FAILOVER_CONFIG: &'static str = "failover_config";

/// What a close request does.
#[derive(Clone, Copy, Debug, PartialEq, Eq)]
pub enum CloseAction {
    /// Let the window close and the application quit.
    Quit,
    /// Keep running, hidden in the system tray.
    Hide,
    /// Keep the window and ask the user.
    Ask,
}

/// The action of the stored close mode: `quit` and `hide` as named;
/// anything else, and no setting, asks.
pub open spec fn close_action_spec(mode: Option<Seq<char>>) -> CloseAction {
    match mode {
        Some(m) => if m == "quit"@ {
            CloseAction::Quit
        } else if m == "hide"@ {
            CloseAction::Hide
        } else {
            CloseAction::Ask
        },
        None => CloseAction::Ask,
    }
}

/// The action of a close request (see `close_action_spec`).
pub fn close_action(mode: Option<&str>) -> (r: CloseAction)
    ensures
        r == close_action_spec(crate::skills::opt_str_view(mode)),
{
    match mode {
        Some(m) => if str_eq(m, "quit") {
            CloseAction::Quit
        } else if str_eq(m, "hide") {
            CloseAction::Hide
        } else {
            CloseAction::Ask
        },
        None => CloseAction::Ask,
    }
}

/// The user's answer to the close question: the mode to remember and what
/// to do now. `hide` and `quit` are remembered and done; any other answer
/// keeps asking and hides the window this time.
pub open spec fn close_choice_spec(choice: Seq<char>) -> (Seq<char>, CloseAction) {
    if choice == "hide"@ {
        ("hide"@, CloseAction::Hide)
    } else if choice == "quit"@ {
        ("quit"@, CloseAction::Quit)
    } else {
        ("ask"@, CloseAction::Hide)
    }
}

/// Reads the answer to the close question (see `close_choice_spec`).
pub fn close_choice(choice: &str) -> (r: (&'static str, CloseAction))
    ensures
        (r.0@, r.1) == close_choice_spec(choice@),
{
    if str_eq(choice, "hide") {
        ("hide", CloseAction::Hide)
    } else if str_eq(choice, "quit") {
        ("quit", CloseAction::Quit)
    } else {
        ("ask", CloseAction::Hide)
    }
}

/// An answer is remembered: closing the window next time does what the
/// answer chose (`ask` keeps asking).
pub proof fn lemma_choice_remembered(choice: Seq<char>)
    ensures
        close_action_spec(Some(close_choice_spec(choice).0)) == (if choice == "hide"@ {
            CloseAction::Hide
        } else if choice == "quit"@ {
            CloseAction::Quit
        } else {
            CloseAction::Ask
        }),
{
    reveal_strlit("hide");
    reveal_strlit("quit");
    reveal_strlit("ask");
    assert("ask"@.len() == 3 && "quit"@.len() == 4 && "hide"@.len() == 4);
    assert("hide"@[0] != "quit"@[0]);
}

} // verus!
