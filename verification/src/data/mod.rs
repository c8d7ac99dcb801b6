//! What is shown of an article: its header, summary and tropes.

pub mod article;
pub mod trope;
pub mod styled;

pub use article::{ArticleData, ArticleSummaryData, ArticleSummaryDataBuilder};
pub use trope::{TropeDataFlatList, TropeDataSingle, TropeDataStub};
