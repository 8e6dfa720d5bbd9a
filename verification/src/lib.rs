//! The core of a coding agent: sessions and their tool rounds, delegation to subagents, prompts,
//! gitignore rules and text utilities.

pub mod delegate;
pub mod event;
pub mod gitignore;
pub mod message;
pub mod outside;
pub mod prompt;
pub mod roles;
pub mod round;
pub mod session;
pub mod text;
pub mod util;
