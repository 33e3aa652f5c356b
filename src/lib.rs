//! A small line-oriented text search library: split text into lines, keep the
//! lines that contain a query, optionally ignoring letter case.

pub mod config;
pub mod laws;
pub mod matcher;
pub mod text;

pub use crate::config::{Config, ConfigError};
pub use crate::matcher::{search, search_case_insensitive};
pub use crate::text::contains_text;
