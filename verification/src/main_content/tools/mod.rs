//! Tool calls shown in the chat: their cards, arguments and diffs.

pub mod cards;
pub mod diff;
pub mod json;
