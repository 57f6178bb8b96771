//! One state machine for each kind of prompt. A prompt starts out active,
//! takes one key at a time, and ends confirmed or cancelled; after that no
//! key changes it. What the kinds share, and the run of a prompt in front of
//! a screen, is in `session`.

pub mod confirm;
pub mod fuzzy_select;
pub mod input;
pub mod multi_select;
pub mod password;
pub mod session;
pub mod sort;
