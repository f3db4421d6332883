//! The two tools: directory listing and an allow-listed git runner.

pub mod git;
pub mod ls;

pub use git::GitRequest;
pub use ls::LsRequest;
