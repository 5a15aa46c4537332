//! Sessions: their conversations, how they are named, and what they may do.

pub mod commands;
pub mod events;
pub mod history;
pub mod targets;
pub mod tidied;
pub mod tokens;
pub mod turns;
