//! Line-oriented substring search: option parsing and line selection.

pub mod config;
pub mod search;
pub mod text;

pub use config::Config;
pub use search::{search, search_case_insensitive};
