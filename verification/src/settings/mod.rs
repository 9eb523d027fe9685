//! User preferences of the desktop shell.

pub mod prefs;
pub mod permissions;
pub mod general;
pub mod providers;
pub mod channels;
