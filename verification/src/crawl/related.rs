//! Reading the related-articles search: one page of links at a time.

use vstd::prelude::*;
use crate::list::ArticleList;
use crate::name::{ArticleName, GroupName, related_search_url, related_url_spec};
use crate::text::{parse_u64, parse_u64_spec};
use super::CrawlError;
use super::trope::{articles_of_links, flat_list_spec, names_view};
use super::page::{first_text, first_text_spec, link_targets, link_targets_spec, opt_texts};

verus! {

/// One page of the related-articles search for an article, in a group or
/// in all.
pub struct RelatedCrawl {
    pub article_name: ArticleName,
    pub group_name: Option<GroupName>,
    pub page: u8,
}

pub open spec fn group_view(g: Option<GroupName>) -> Option<Seq<char>> {
    match g {
        Some(g) => Some(g@),
        None => None,
    }
}

impl RelatedCrawl {
    /// The page's URL.
    pub fn url(&self) -> (r: String)
        ensures
            r@ == related_url_spec(self.article_name@, group_view(self.group_name), Some(self.page)),
    {
        let group = match &self.group_name {
            Some(g) => Some(g),
            None => None,
        };
        related_search_url(&self.article_name, group, self.page)
    }

    /// The articles that the page's listing links point at.
    pub fn crawl(&self, hrefs: &Vec<Option<String>>) -> (r: Result<Vec<ArticleName>, CrawlError>)
        ensures
            match flat_list_spec(opt_texts(hrefs@)) {
                Ok(names) => r matches Ok(v) && names_view(v@) == names,
                Err(e) => r == Err::<Vec<ArticleName>, CrawlError>(e),
            },
    {
        articles_of_links(hrefs)
    }
}

/// `ul.no-bullets > li > a[href]`, the links of a related-search page.
pub open spec fn listing_selector() -> Seq<char> {
    "ul.no-bullets > li > a[href]"@
}

/// `.examples-header + ul > li > a`, the links of a related-articles listing.
pub open spec fn examples_selector() -> Seq<char> {
    ".examples-header + ul > li > a"@
}

/// `p > strong`, the element that states the number of results.
pub open spec fn count_selector() -> Seq<char> {
    "p > strong"@
}

/// On every page, a related-articles listing is read through the CSS
/// selector `.examples-header + ul > li > a`: the links directly inside the
/// items of a `ul` that directly follows an element of class
/// `examples-header`, and no other list.  A search page is read through
/// `ul.no-bullets > li > a[href]`, and the number of results through the
/// first `strong` directly inside a `p`.  What a selector picks is
/// scraper's matching, named by `selected_of`.
pub proof fn lemma_listing_reads_the_examples_list(text: Seq<char>)
    ensures
        link_targets_spec(text, examples_selector()) == link_targets_spec(
            text,
            ".examples-header + ul > li > a"@,
        ),
        link_targets_spec(text, listing_selector()) == link_targets_spec(
            text,
            "ul.no-bullets > li > a[href]"@,
        ),
        first_text_spec(text, count_selector()) == first_text_spec(text, "p > strong"@),
{
}

impl RelatedCrawl {
    /// The articles that the listing links of the page's text point at.
    pub fn crawl_text(&self, text: &str) -> (r: Result<Vec<ArticleName>, CrawlError>)
        ensures
            match flat_list_spec(link_targets_spec(text@, listing_selector())) {
                Ok(names) => r matches Ok(v) && names_view(v@) == names,
                Err(e) => r == Err::<Vec<ArticleName>, CrawlError>(e),
            },
    {
        let hrefs = link_targets(text, "ul.no-bullets > li > a[href]");
        self.crawl(&hrefs)
    }
}

/// Appends the articles that the listing of a page's text links to, in the
/// order listed; returns how many there were.
pub fn crawl_listing_text(out: &mut ArticleList, text: &str) -> (r: Result<usize, CrawlError>)
    ensures
        match flat_list_spec(link_targets_spec(text@, examples_selector())) {
            Ok(names) => r == Ok::<usize, CrawlError>(names.len() as usize) && names_view(
                final(out)@,
            ) == names_view(old(out)@) + names,
            Err(e) => r == Err::<usize, CrawlError>(e),
        },
{
    let hrefs = link_targets(text, ".examples-header + ul > li > a");
    crawl_page(out, &hrefs)
}

/// The number of results that a listing page's text states, if its first
/// bold text is a number.
pub fn total_count(text: &str) -> (r: Option<u64>)
    ensures
        r == match first_text_spec(text@, count_selector()) {
            Some(t) => parse_u64_spec(t),
            None => None,
        },
{
    let first = first_text(text, "p > strong");
    find_total_count(&first)
}

/// Appends the articles that a listing page links to, in the order listed;
/// returns how many there were.
pub fn crawl_page(out: &mut ArticleList, hrefs: &Vec<Option<String>>) -> (r: Result<usize, CrawlError>)
    ensures
        match flat_list_spec(opt_texts(hrefs@)) {
            Ok(names) => r == Ok::<usize, CrawlError>(names.len() as usize) && names_view(
                final(out)@,
            ) == names_view(old(out)@) + names,
            Err(e) => r == Err::<usize, CrawlError>(e),
        },
{
    match articles_of_links(hrefs) {
        Ok(v) => {
            let n = v.len();
            let ghost before = out@;
            let mut i: usize = 0;
            while i < n
                invariant
                    i <= n == v@.len(),
                    out@ == before + v@.take(i as int),
                decreases n - i,
            {
                out.push_assume_sorted(v[i].clone());
                assert(out@ =~= before + v@.take(i + 1));
                i = i + 1;
            }
            assert(v@.take(n as int) =~= v@);
            assert(names_view(out@) =~= names_view(before) + names_view(v@));
            Ok(n)
        },
        Err(e) => Err(e),
    }
}

/// The page to read after one that added `added` articles: none once a
/// page adds nothing, the next one otherwise.
pub fn after_page(page: u8, added: usize) -> (r: Option<u8>)
    requires
        added > 0 ==> page < u8::MAX,
    ensures
        r == if added == 0 {
            None
        } else {
            Some((page + 1) as u8)
        },
{
    if added == 0 {
        None
    } else {
        Some(page + 1)
    }
}

/// The number of results that the search page states in its first bold
/// text, if that text is a number.
pub fn find_total_count(first_count_text: &Option<String>) -> (r: Option<u64>)
    ensures
        r == match first_count_text {
            Some(t) => parse_u64_spec(t@),
            None => None,
        },
{
    match first_count_text {
        Some(t) => parse_u64(t.as_str()),
        None => None,
    }
}

} // verus!
