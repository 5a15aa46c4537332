//! The services that models are reached through: what is sent to them and what
//! their replies mean.

pub mod anthropic;
pub mod assembled;
pub mod anthropic_stream;
pub mod bodies;
pub mod caching;
pub mod collected;
pub mod deepseek;
pub mod errors;
pub mod fetch;
pub mod gemini;
pub mod gemini_reply;
pub mod images;
pub mod itemised;
pub mod lines;
pub mod model;
pub mod ollama;
pub mod openai;
pub mod replayed;
pub mod reply;
pub mod pictured;
pub mod requested;
pub mod responses;
pub mod responses_stream;
pub mod stream;
pub mod streamed;
pub mod thinking;
pub mod written;
pub mod written_blocks;
pub mod written_parts;
