//! The instructions of the system: what they are made of and how they are put
//! together.

pub mod assembly;
pub mod bootstrap;
pub mod cache;
pub mod clock;
pub mod frontmatter;
pub mod said;
pub mod skills;
pub mod system;
