//! Keeps generated files in sync with the command and inputs that produce
//! them, by content digest rather than by timestamp.
pub mod digest;
pub mod doc;
pub mod entry;
pub mod error;
pub mod manifest;
pub mod order;
pub mod text;
