//! A guarded command gateway: request validation, an ordered text transform
//! pipeline, and the decisions around running a command under a timeout.

pub mod text;
pub mod security;
pub mod pattern;
pub mod request;
pub mod executor;
pub mod tools;
