//! Core logic of the LingClaw assistant.

pub mod chat;
pub mod diagnostics;
pub mod digest;
pub mod json;
pub mod memory;
pub mod plan;
pub mod prompts;
pub mod providers;
pub mod session;
pub mod text;
pub mod within;
