//! The chat area: assistant message parsing, streamed response assembly,
//! tool cards and permission prompts.

pub mod assistant_messages;
pub mod keyed;
pub mod markdown;
pub mod block_markdown;
pub mod permission;
pub mod reasoning;
pub mod summary_laws;
pub mod tools;
pub mod title;
pub mod context;
pub mod models;
pub mod voice;
pub mod terminal;
