//! The details of an article shown beside the list, in two tabs.

use vstd::prelude::*;
use crate::crawl::article::{ArticleInfo, ArticleSingleTropeBody};
use crate::name::ArticleName;

verus! {

/// The details of an article and the tab shown.
#[derive(Debug)]
pub struct RelatedArticleInfo {
    article_info: ArticleInfo<ArticleSingleTropeBody>,
    tab: RelatedArticleInfoTab,
}

/// The two tabs of the details.
#[derive(Debug, Clone, Copy, PartialEq, Eq, Structural)]
pub enum RelatedArticleInfoTab {
    Summary,
    Trope,
}

impl RelatedArticleInfo {
    pub closed spec fn info(&self) -> ArticleInfo<ArticleSingleTropeBody> {
        self.article_info
    }

    pub closed spec fn shown_tab(&self) -> RelatedArticleInfoTab {
        self.tab
    }

    /// The details, showing the summary.
    pub fn new(article_info: ArticleInfo<ArticleSingleTropeBody>) -> (r: RelatedArticleInfo)
        ensures
            r.info() == article_info,
            r.shown_tab() == RelatedArticleInfoTab::Summary,
    {
        RelatedArticleInfo { article_info, tab: RelatedArticleInfoTab::Summary }
    }

    pub fn url(&self) -> (r: &String)
        ensures
            *r == self.info().url,
    {
        &self.article_info.url
    }

    pub fn title(&self) -> (r: &str)
        ensures
            r@ == self.info().title@,
    {
        self.article_info.title.as_str()
    }

    pub fn summary(&self) -> (r: &str)
        ensures
            r@ == self.info().summary@,
    {
        self.article_info.summary.as_str()
    }

    pub fn article_name(&self) -> (r: &ArticleName)
        ensures
            *r == self.info().name,
    {
        &self.article_info.name
    }

    pub fn trope(&self) -> (r: &ArticleSingleTropeBody)
        ensures
            *r == self.info().body,
    {
        &self.article_info.body
    }

    pub fn tab(&self) -> (r: RelatedArticleInfoTab)
        ensures
            r == self.shown_tab(),
    {
        self.tab
    }

    /// Shows the other tab.
    pub fn toggle_tab(&mut self)
        ensures
            final(self).info() == old(self).info(),
            final(self).shown_tab() == match old(self).shown_tab() {
                RelatedArticleInfoTab::Summary => RelatedArticleInfoTab::Trope,
                RelatedArticleInfoTab::Trope => RelatedArticleInfoTab::Summary,
            },
    {
        self.tab =
        match self.tab {
            RelatedArticleInfoTab::Summary => RelatedArticleInfoTab::Trope,
            RelatedArticleInfoTab::Trope => RelatedArticleInfoTab::Summary,
        };
    }
}

} // verus!
