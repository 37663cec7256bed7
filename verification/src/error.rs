//! The failures a firing can report.

use vstd::prelude::*;
use vstd::string::StringExecFns;

verus! {

/// Why an event did not lead to a new state.
#[derive(Debug, Clone)]
pub enum TransitionError {
    /// No transition is registered for the state and event, or every
    /// registered one was turned down by its guard. The fields are the
    /// labels of the state and of the event.
    NoValidTransition { from: String, event: String },
    /// Reserved; the engine does not report it.
    ConditionFailed,
    /// A state was left because its dwell time ran out.
    Timeout,
    /// An asynchronous action failed.
    AsyncError(String),
}

impl TransitionError {
    /// The message of the error.
    pub open spec fn text(self) -> Seq<char> {
        match self {
            TransitionError::NoValidTransition { from, event } => {
                "No valid transition from state "@ + from@ + " with event "@ + event@
            },
            TransitionError::ConditionFailed => "Transition condition failed"@,
            TransitionError::Timeout => "State timeout occurred"@,
            TransitionError::AsyncError(message) => "Async error: "@ + message@,
        }
    }

    /// Renders the error as text.
    pub fn to_string(&self) -> (rendered: String)
        ensures
            rendered@ == self.text(),
    {
        match self {
            TransitionError::NoValidTransition { from, event } => {
                let mut rendered = String::from_str("No valid transition from state ");
                rendered.append(from.as_str());
                rendered.append(" with event ");
                rendered.append(event.as_str());
                rendered
            },
            TransitionError::ConditionFailed => String::from_str("Transition condition failed"),
            TransitionError::Timeout => String::from_str("State timeout occurred"),
            TransitionError::AsyncError(message) => {
                let mut rendered = String::from_str("Async error: ");
                rendered.append(message.as_str());
                rendered
            },
        }
    }
}

} // verus!
