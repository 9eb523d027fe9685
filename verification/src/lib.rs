//! Verified core of the Operon desktop shell: markdown and diagram parsing,
//! streamed response assembly, tool-card formatting and user preferences.

pub mod text;
pub mod main_content;
pub mod settings;
pub mod window;
pub mod media;
pub mod paths;
pub mod string_set;
pub mod executor;
pub mod sidebar;
pub mod conversation;
pub mod channel_lists;
pub mod state;
pub mod git;
