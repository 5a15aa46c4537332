//! Structured memory: what the assistant remembers of a session across runs.

pub mod clean;
pub mod excerpt;
pub mod learned;
pub mod merge;
pub mod model;
pub mod prompt;
pub mod recalled;
pub mod records;
pub mod select;
pub mod shown;
pub mod status;
pub mod task;
pub mod updater;
