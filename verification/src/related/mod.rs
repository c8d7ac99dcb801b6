//! The related-articles browser: its list, its key handling and the
//! loading of further pages.

pub mod computed_len;
pub mod list;
pub mod article;
pub mod app;
pub mod message;
pub mod verdicts;
pub mod loader;

pub use message::RelatedMessage;
