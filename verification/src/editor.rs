//! The decisions around a visit to an external editor: which command to
//! run, and what to make of what comes back. Running the editor is left to
//! the caller.

use vstd::prelude::*;
use crate::error::PromptError;

verus! {

/// A command is usable if it is given and not empty.
pub open spec fn usable(command: Option<String>) -> bool {
    command matches Some(c) && c@.len() > 0
}

/// The command to run: `chosen` by the caller if usable, or else the one
/// `configured` in the environment, or else the `fallback` of the platform.
pub open spec fn resolved(
    chosen: Option<String>,
    configured: Option<String>,
    fallback: Option<String>,
) -> Option<Seq<char>> {
    if usable(chosen) {
        Some(chosen->0@)
    } else if usable(configured) {
        Some(configured->0@)
    } else if usable(fallback) {
        Some(fallback->0@)
    } else {
        None
    }
}

/// What an edit gives: the text that came back, if the editor ended well and
/// the text differs from what went in; and nothing otherwise.
pub open spec fn edited_text(given: Seq<char>, ended_well: bool, edited: Seq<char>) -> Option<
    Seq<char>,
> {
    if ended_well && edited != given {
        Some(edited)
    } else {
        None
    }
}

fn is_usable(command: &Option<String>) -> (r: bool)
    ensures
        r == usable(*command),
{
    match command {
        Some(c) => !c.as_str().is_empty(),
        None => false,
    }
}

/// Picks the editor command: the caller's choice, or else what the
/// environment configures, or else the platform's fallback, skipping what
/// is absent or empty. Where none is usable the edit fails with
/// `EditorLaunch`.
pub fn resolve_editor(
    chosen: Option<String>,
    configured: Option<String>,
    fallback: Option<String>,
) -> (r: Result<String, PromptError>)
    ensures
        match r {
            Ok(command) => resolved(chosen, configured, fallback) == Some(command@),
            Err(e) => resolved(chosen, configured, fallback) is None && e == PromptError::EditorLaunch,
        },
{
    if is_usable(&chosen) {
        Ok(chosen.unwrap())
    } else if is_usable(&configured) {
        Ok(configured.unwrap())
    } else if is_usable(&fallback) {
        Ok(fallback.unwrap())
    } else {
        Err(PromptError::EditorLaunch)
    }
}

/// What an edit gives, from what went into the editor, whether the editor
/// ended well, and what came back.
pub fn editor_outcome(given: &str, ended_well: bool, edited: String) -> (r: Option<String>)
    ensures
        match r {
            Some(text) => edited_text(given@, ended_well, edited@) == Some(text@),
            None => edited_text(given@, ended_well, edited@) is None,
        },
{
    if !ended_well {
        return None;
    }
    let before = given.to_owned();
    if edited == before {
        None
    } else {
        Some(edited)
    }
}

} // verus!
