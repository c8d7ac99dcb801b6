//! Verified core of a TV Tropes related-article browser.

pub mod text;
pub mod term;
pub mod name;
pub mod database;
pub mod files;
pub mod list;
pub mod list_state;
pub mod errors;
pub mod progress;
pub mod related;
pub mod crawl;
pub mod data;
pub mod print;
pub mod prompt;
