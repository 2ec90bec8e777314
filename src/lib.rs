//! Strict HTTP header-line parsing and HTTP protocol versions.

pub mod grammar;
pub mod header;
pub mod version;

pub use header::{Header, HeaderError};
pub use version::HTTPVersion;
