//! Commands of the replicated key-value store and their results.

use vstd::prelude::*;

verus! {

/// Command to the state machine.
#[derive(Debug, PartialEq, Eq)]
pub enum Command {
    /// Get the value of given key.
    Get { key: String },
    /// Put a new value into key.
    Put { key: String, value: String },
}

/// A command as a mathematical value.
pub enum CommandView {
    Get { key: Seq<char> },
    Put { key: Seq<char>, value: Seq<char> },
}

impl View for Command {
    type V = CommandView;

    open spec fn view(&self) -> CommandView {
        match self {
            Command::Get { key } => CommandView::Get { key: key@ },
            Command::Put { key, value } => CommandView::Put { key: key@, value: value@ },
        }
    }
}

impl Clone for Command {
    fn clone(&self) -> (r: Self)
        ensures
            r@ == self@,
    {
        match self {
            Command::Get { key } => Command::Get { key: key.clone() },
            Command::Put { key, value } => Command::Put { key: key.clone(), value: value.clone() },
        }
    }
}

/// Command execution result returned by the state machine.
#[derive(Debug, PartialEq, Eq)]
pub enum CommandResult {
    /// `Some(value)` if key is found in state machine, else `None`.
    GetResult { value: Option<String> },
    /// `Some(old_value)` if key was in state machine, else `None`.
    PutResult { old_value: Option<String> },
}

/// A command result as a mathematical value.
pub enum CommandResultView {
    GetResult { value: Option<Seq<char>> },
    PutResult { old_value: Option<Seq<char>> },
}

/// The characters of a string that may be absent.
pub open spec fn text_view(text: Option<String>) -> Option<Seq<char>> {
    match text {
        Some(text) => Some(text@),
        None => None,
    }
}

impl View for CommandResult {
    type V = CommandResultView;

    open spec fn view(&self) -> CommandResultView {
        match self {
            CommandResult::GetResult { value } => CommandResultView::GetResult {
                value: text_view(*value),
            },
            CommandResult::PutResult { old_value } => CommandResultView::PutResult {
                old_value: text_view(*old_value),
            },
        }
    }
}

/// A copy of a string that may be absent.
fn clone_text(text: &Option<String>) -> (r: Option<String>)
    ensures
        text_view(r) == text_view(*text),
{
    match text {
        Some(text) => Some(text.clone()),
        None => None,
    }
}

impl Clone for CommandResult {
    fn clone(&self) -> (r: Self)
        ensures
            r@ == self@,
    {
        match self {
            CommandResult::GetResult { value } => CommandResult::GetResult {
                value: clone_text(value),
            },
            CommandResult::PutResult { old_value } => CommandResult::PutResult {
                old_value: clone_text(old_value),
            },
        }
    }
}

} // verus!
