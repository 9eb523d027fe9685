//! The agent session as the shell sees it: the events it streams and what
//! each of them changes in the turn on screen.

pub mod events;
pub mod prompt;
pub mod turn_shape;
