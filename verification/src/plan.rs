//! Plans: what the assistant proposes, what the user approves, and what the
//! server accepts as proof that an approved revision was carried out.

pub mod accept;
pub mod capture;
pub mod completion;
pub mod displayed;
pub mod done;
pub mod encode;
pub mod evidence;
pub mod fingerprint;
pub mod markdown;
pub mod model;
pub mod normalize;
pub mod pending;
pub mod progress;
pub mod recorded;
pub mod reported;
pub mod rules;
pub mod schema;
pub mod snapshot;
pub mod stored;
pub mod submit;
