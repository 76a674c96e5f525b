//! Commit-message synthesis: request building from a configured template,
//! decoding of completion replies, and extraction of the final message.

pub mod config;
pub mod error;
pub mod json;
pub mod request;
pub mod response;
pub mod template;
pub mod text;
