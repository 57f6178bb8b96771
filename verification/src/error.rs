//! How a prompt ends, and how it fails.

use vstd::prelude::*;

verus! {

/// Where a prompt stands. `Active` is the state it starts in; the other two
/// are final.
#[derive(Clone, Copy, Debug, PartialEq, Eq, Structural)]
pub enum Status {
    /// The prompt takes keys.
    Active,
    /// The user accepted a value.
    Confirmed,
    /// The user left the prompt with Escape or Ctrl-C.
    Cancelled,
}

/// Why a prompt gave no value.
#[derive(Clone, Copy, Debug, PartialEq, Eq, Structural)]
pub enum PromptError {
    /// The user cancelled the prompt.
    Interrupted,
    /// No editor is configured and none could be found.
    EditorLaunch,
    /// The prompt was set up with values it cannot work with, such as an
    /// empty list of items.
    InvalidConfiguration,
}

impl PromptError {
    /// A sentence that describes the error.
    pub fn message(&self) -> (r: String)
        ensures
            r@ == match *self {
                PromptError::Interrupted => "the prompt was cancelled"@,
                PromptError::EditorLaunch => "no editor is configured and none was found"@,
                PromptError::InvalidConfiguration => "the prompt was given nothing to choose from"@,
            },
    {
        match self {
            PromptError::Interrupted => "the prompt was cancelled".to_owned(),
            PromptError::EditorLaunch => "no editor is configured and none was found".to_owned(),
            PromptError::InvalidConfiguration => "the prompt was given nothing to choose from".to_owned(),
        }
    }
}

} // verus!
