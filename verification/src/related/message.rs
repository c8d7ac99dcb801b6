//! Requests that the browser hands to the code that loads and stores.

use vstd::prelude::*;
use crate::database::Verdict;
use crate::name::{ArticleName, GroupName};

verus! {

/// What the browser asks to be done outside it.
#[derive(Debug)]
#[must_use]
pub enum RelatedMessage {
    /// Load a page of related articles, in a group or in all.
    LoadRelated { group_name: Option<GroupName>, page: u8 },
    /// Store the verdict on an article, or remove it.
    SetVerdict { article_name: ArticleName, verdict: Option<Verdict> },
    /// Load the details of an article.
    LoadArticleInfo { article_name: ArticleName },
    /// Open a URL in the browser.
    OpenUrlInBrowser { url: String },
}

/// A copy of an optional group name.
pub fn clone_group(group: &Option<GroupName>) -> (r: Option<GroupName>)
    ensures
        r == *group,
{
    match group {
        Some(g) => Some(g.clone()),
        None => None,
    }
}

} // verus!
