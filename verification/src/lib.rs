//! Building blocks for interactive terminal prompts: the editable line,
//! recall of earlier input, fuzzy matching, list selection, the key handling
//! of each kind of prompt, and redrawing by difference, all as pure state
//! transitions with machine-checked contracts.
//!
//! Reading keys and writing to the terminal is left to the caller: it hands
//! each key to a [`prompt::session::Session`] and carries out the terminal
//! operations that come back.

pub mod editor;
pub mod error;
pub mod frame;
pub mod fuzzy;
pub mod history;
pub mod key;
pub mod line_buffer;
pub mod prompt;
pub mod render;
pub mod select;
pub mod text;
