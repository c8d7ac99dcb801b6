//! An article page: its title, summary and where it mentions a trope.

use vstd::prelude::*;
use std::ops::Range;
use crate::name::{ArticleName, article_url_spec, parse_relative_url, relative_url_spec};
use crate::text::{push_str, trim, trim_str};
use super::page::{article_page_spec, read_article_page};
use super::{CrawlError, byte_range, concat_all, entry_text, entry_text_of, text_range, texts};

verus! {

/// What was read from an article page.
#[derive(Debug)]
pub struct ArticleInfo<Body> {
    pub url: String,
    pub name: ArticleName,
    pub title: String,
    pub summary: String,
    pub body: Body,
}

/// Where an article mentions a given trope.
#[derive(Debug)]
pub enum ArticleSingleTropeBody {
    /// As an entry of its own trope list.
    TopLevel { article_name: ArticleName, text: String },
    /// Inside the entry of another trope; the range is where the trope's
    /// link text stands in `text`.
    InOther {
        other_article_name: ArticleName,
        text: String,
        own_article_url_range: Option<Range<usize>>,
    },
    /// Somewhere else on the page; the range is where the link text stands
    /// in the enclosing block's text.
    Elsewhere { nearest_block_parent_text: String, url_range: Option<Range<usize>> },
}

/// The element that holds an article's title.  Pages write it in one of two
/// ways; in the second the first text is a prefix that is not part of it.
pub struct TitleElement {
    pub text_nodes: Vec<String>,
    pub is_first_kind: bool,
}

/// A child element of the main article, as far as the summary cares.
pub enum SummaryChild {
    /// A rule; one with a `data-format` attribute ends the summary.
    Rule { has_data_format: bool },
    /// A paragraph and its texts.
    Paragraph { text_nodes: Vec<String> },
    /// Anything else.
    Other,
}

/// The list item that holds the trope's link, with the first trope link in
/// that item.
pub struct ListItemLink {
    pub text_nodes: Vec<String>,
    /// Whether the first trope link of the item is the trope's link itself.
    pub first_is_link: bool,
    pub first_href: Option<String>,
}

/// The trope's link on an article page and what surrounds it.
pub struct TropeLink {
    /// The link's own text.
    pub link_text: String,
    /// The nearest list item around the link, if it has a trope link.
    pub list_item: Option<ListItemLink>,
    /// The text of the nearest list item, paragraph or division around it.
    pub block_text: Option<String>,
}

/// What an article page offers: the main article's children, the title
/// element and the trope's link.
pub struct ArticlePage {
    pub main: Option<Vec<SummaryChild>>,
    pub title: Option<TitleElement>,
    pub trope_link: Option<TropeLink>,
}

/// What a title element holds.
pub ghost struct TitleView {
    pub text_nodes: Seq<Seq<char>>,
    pub is_first_kind: bool,
}

impl View for TitleElement {
    type V = TitleView;

    open spec fn view(&self) -> TitleView {
        TitleView { text_nodes: texts(self.text_nodes@), is_first_kind: self.is_first_kind }
    }
}

/// What a child of the main article holds.
pub ghost enum SummaryChildView {
    Rule { has_data_format: bool },
    Paragraph { text_nodes: Seq<Seq<char>> },
    Other,
}

impl View for SummaryChild {
    type V = SummaryChildView;

    open spec fn view(&self) -> SummaryChildView {
        match self {
            SummaryChild::Rule { has_data_format } => SummaryChildView::Rule {
                has_data_format: *has_data_format,
            },
            SummaryChild::Paragraph { text_nodes } => SummaryChildView::Paragraph {
                text_nodes: texts(text_nodes@),
            },
            SummaryChild::Other => SummaryChildView::Other,
        }
    }
}

/// The children of the main article, by what they hold.
pub open spec fn children_view(v: Seq<SummaryChild>) -> Seq<SummaryChildView> {
    Seq::new(v.len(), |i: int| v[i]@)
}

/// An optional text by its characters.
pub open spec fn opt_text(o: Option<String>) -> Option<Seq<char>> {
    match o {
        Some(s) => Some(s@),
        None => None,
    }
}

/// What the list item around the trope's link holds.
pub ghost struct ListItemLinkView {
    pub text_nodes: Seq<Seq<char>>,
    pub first_is_link: bool,
    pub first_href: Option<Seq<char>>,
}

impl View for ListItemLink {
    type V = ListItemLinkView;

    open spec fn view(&self) -> ListItemLinkView {
        ListItemLinkView {
            text_nodes: texts(self.text_nodes@),
            first_is_link: self.first_is_link,
            first_href: opt_text(self.first_href),
        }
    }
}

/// What is read around the trope's link.
pub ghost struct TropeLinkView {
    pub link_text: Seq<char>,
    pub list_item: Option<ListItemLinkView>,
    pub block_text: Option<Seq<char>>,
}

impl View for TropeLink {
    type V = TropeLinkView;

    open spec fn view(&self) -> TropeLinkView {
        TropeLinkView {
            link_text: self.link_text@,
            list_item: match self.list_item {
                Some(li) => Some(li@),
                None => None,
            },
            block_text: opt_text(self.block_text),
        }
    }
}

/// What an article page offers, by its contents.
pub ghost struct ArticlePageView {
    pub main: Option<Seq<SummaryChildView>>,
    pub title: Option<TitleView>,
    pub trope_link: Option<TropeLinkView>,
}

pub open spec fn title_view(t: Option<TitleElement>) -> Option<TitleView> {
    match t {
        Some(t) => Some(t@),
        None => None,
    }
}

pub open spec fn link_view(l: Option<TropeLink>) -> Option<TropeLinkView> {
    match l {
        Some(l) => Some(l@),
        None => None,
    }
}

impl View for ArticlePage {
    type V = ArticlePageView;

    open spec fn view(&self) -> ArticlePageView {
        ArticlePageView {
            main: match self.main {
                Some(children) => Some(children_view(children@)),
                None => None,
            },
            title: title_view(self.title),
            trope_link: link_view(self.trope_link),
        }
    }
}

/// The last text that is not empty once trimmed, trimmed.
pub open spec fn last_trimmed(nodes: Seq<Seq<char>>) -> Option<Seq<char>>
    decreases nodes.len(),
{
    if nodes.len() == 0 {
        None
    } else if trim(nodes.last()).len() > 0 {
        Some(trim(nodes.last()))
    } else {
        last_trimmed(nodes.drop_last())
    }
}

/// The title that the title element gives.
pub open spec fn title_spec(title: Option<TitleView>) -> Result<Seq<char>, CrawlError> {
    match title {
        None => Err(CrawlError::NoTitle),
        Some(t) => {
            let nodes = t.text_nodes;
            let nodes = if t.is_first_kind || nodes.len() == 0 {
                nodes
            } else {
                nodes.drop_first()
            };
            match last_trimmed(nodes) {
                Some(s) => Ok(s),
                None => Err(CrawlError::EmptyTitle),
            }
        },
    }
}

/// The title: of the title element's texts (after the prefix, for the
/// second kind), the last one that is not empty once trimmed.
pub fn get_title(title: &Option<TitleElement>) -> (r: Result<String, CrawlError>)
    ensures
        match title_spec(title_view(*title)) {
            Ok(s) => r matches Ok(t) && t@ == s,
            Err(e) => r == Err::<String, CrawlError>(e),
        },
{
    let t = match title {
        Some(t) => t,
        None => return Err(CrawlError::NoTitle),
    };
    let first: usize = if t.is_first_kind || t.text_nodes.len() == 0 {
        0
    } else {
        1
    };
    assert(texts(t.text_nodes@).skip(first as int) =~= if t.is_first_kind || t.text_nodes@.len()
        == 0 {
        texts(t.text_nodes@)
    } else {
        texts(t.text_nodes@).drop_first()
    });
    match last_trimmed_from(&t.text_nodes, first) {
        Some(s) => Ok(s),
        None => Err(CrawlError::EmptyTitle),
    }
}

/// Of the texts from `first` on, the last that is not empty once trimmed,
/// trimmed.
fn last_trimmed_from(text_nodes: &Vec<String>, first: usize) -> (r: Option<String>)
    requires
        first <= text_nodes@.len(),
    ensures
        match last_trimmed(texts(text_nodes@).skip(first as int)) {
            Some(s) => r matches Some(t) && t@ == s,
            None => r is None,
        },
{
    let ghost all = texts(text_nodes@);
    let ghost nodes = all.skip(first as int);
    let mut j: usize = text_nodes.len();
    assert(nodes.take((j - first) as int) =~= nodes);
    while j > first
        invariant
            first <= j <= text_nodes@.len(),
            all == texts(text_nodes@),
            nodes == all.skip(first as int),
            last_trimmed(nodes) == last_trimmed(nodes.take(j - first)),
        decreases j,
    {
        let k = j - 1;
        assert(nodes.take(j - first).drop_last() =~= nodes.take(k - first));
        assert(nodes.take(j - first).last() == all[k as int]);
        let s = trim_str(text_nodes[k].as_str());
        if !s.as_str().is_empty() {
            return Some(s);
        }
        j = k;
    }
    assert(nodes.take(0) =~= Seq::<Seq<char>>::empty());
    None
}

/// Whether a child ends the summary.
pub open spec fn ends_summary(c: SummaryChildView) -> bool {
    c matches SummaryChildView::Rule { has_data_format } && has_data_format
}

/// The number of children before the first that ends the summary.
pub open spec fn summary_end(children: Seq<SummaryChildView>) -> nat
    decreases children.len(),
{
    if children.len() == 0 || ends_summary(children[0]) {
        0
    } else {
        1 + summary_end(children.drop_first())
    }
}

/// The paragraphs' texts, joined, with a blank line between paragraphs once
/// some text has been written.
pub open spec fn paragraphs_text(children: Seq<SummaryChildView>) -> Seq<char>
    decreases children.len(),
{
    if children.len() == 0 {
        Seq::empty()
    } else {
        let acc = paragraphs_text(children.drop_last());
        match children.last() {
            SummaryChildView::Paragraph { text_nodes } => (if acc.len() == 0 {
                acc
            } else {
                acc + seq!['\n', '\n']
            }) + concat_all(text_nodes),
            _ => acc,
        }
    }
}

/// The summary: the paragraphs before the rule that ends it.
pub open spec fn summary_spec(children: Seq<SummaryChildView>) -> Seq<char> {
    paragraphs_text(children.take(summary_end(children) as int))
}

proof fn lemma_summary_end(children: Seq<SummaryChildView>, i: int)
    requires
        0 <= i <= children.len(),
        forall|j: int| 0 <= j < i ==> !ends_summary(#[trigger] children[j]),
        i == children.len() || ends_summary(children[i]),
    ensures
        summary_end(children) == i,
    decreases i,
{
    if i > 0 {
        let rest = children.drop_first();
        assert forall|j: int| 0 <= j < i - 1 implies !ends_summary(#[trigger] rest[j]) by {
            assert(rest[j] == children[j + 1]);
        }
        if i < children.len() {
            assert(rest[i - 1] == children[i]);
        }
        lemma_summary_end(rest, i - 1);
    }
}

/// The summary of the main article: its paragraphs' texts, a blank line
/// between paragraphs, up to the first rule with a `data-format`.
pub fn get_summary(children: &Vec<SummaryChild>) -> (r: String)
    ensures
        r@ == summary_spec(children_view(children@)),
{
    let ghost cv = children_view(children@);
    let mut out = String::new();
    let mut i: usize = 0;
    while i < children.len()
        invariant
            i <= children@.len(),
            cv == children_view(children@),
            forall|j: int| 0 <= j < i ==> !ends_summary(#[trigger] cv[j]),
            out@ == paragraphs_text(cv.take(i as int)),
        decreases children@.len() - i,
    {
        assert(cv.take(i + 1).drop_last() =~= cv.take(i as int));
        assert(cv[i as int] == children@[i as int]@);
        match &children[i] {
            SummaryChild::Rule { has_data_format } => {
                if *has_data_format {
                    proof {
                        lemma_summary_end(cv, i as int);
                    }
                    return out;
                }
            },
            SummaryChild::Paragraph { text_nodes } => {
                if !out.as_str().is_empty() {
                    push_str(&mut out, "\n\n");
                    proof {
                        reveal_strlit("\n\n");
                    }
                }
                let mut k: usize = 0;
                let ghost before = out@;
                while k < text_nodes.len()
                    invariant
                        k <= text_nodes@.len(),
                        out@ == before + concat_all(texts(text_nodes@).take(k as int)),
                    decreases text_nodes@.len() - k,
                {
                    assert(texts(text_nodes@).take(k + 1).drop_last() =~= texts(
                        text_nodes@,
                    ).take(k as int));
                    push_str(&mut out, text_nodes[k].as_str());
                    k = k + 1;
                }
                assert(texts(text_nodes@).take(k as int) =~= texts(text_nodes@));
            },
            SummaryChild::Other => {},
        }
        i = i + 1;
    }
    proof {
        lemma_summary_end(cv, i as int);
        assert(cv.take(i as int) =~= cv);
    }
    out
}

/// Reads the article page for one trope's mention.
pub struct ArticleCrawlSingleTrope(pub ArticleName);

/// `a.twikilink[href="URL"]`, the trope links that point at the article.
pub open spec fn link_selector_spec(a: (Seq<char>, Seq<char>)) -> Seq<char> {
    "a.twikilink[href=\""@ + relative_url_spec(a) + "\"]"@
}

/// Where the article mentions the trope, as read from the trope's link.
pub open spec fn body_spec(trope: ArticleName, link: Option<TropeLinkView>, r: Result<
    ArticleSingleTropeBody,
    CrawlError,
>) -> bool {
    match link {
        None => r == Err::<ArticleSingleTropeBody, CrawlError>(CrawlError::MissingTrope),
        Some(l) => match l.list_item {
            Some(li) => {
                let text = entry_text(li.text_nodes);
                if li.first_is_link {
                    r matches Ok(ArticleSingleTropeBody::TopLevel { article_name, text: t })
                        && article_name == trope && t@ == text
                } else {
                    match li.first_href {
                        None => r == Err::<ArticleSingleTropeBody, CrawlError>(
                            CrawlError::FirstLinkMissingHref,
                        ),
                        Some(h) => match parse_relative_url(h) {
                            Err(e) => r == Err::<ArticleSingleTropeBody, CrawlError>(
                                CrawlError::InvalidName(e),
                            ),
                            Ok(other) => r matches Ok(
                                ArticleSingleTropeBody::InOther {
                                    other_article_name,
                                    text: t,
                                    own_article_url_range,
                                },
                            ) && other_article_name@ == other && t@ == text
                                && own_article_url_range == byte_range(text, l.link_text),
                        },
                    }
                }
            },
            None => match l.block_text {
                None => r == Err::<ArticleSingleTropeBody, CrawlError>(CrawlError::NoBlockParent),
                Some(b) => r matches Ok(
                    ArticleSingleTropeBody::Elsewhere { nearest_block_parent_text: t, url_range },
                ) && t@ == b && url_range == byte_range(b, l.link_text),
            },
        },
    }
}

impl ArticleCrawlSingleTrope {
    /// The selector of the links to the trope.
    pub fn link_selector(&self) -> (r: String)
        ensures
            r@ == link_selector_spec(self.0@),
    {
        let mut out = String::new();
        push_str(&mut out, "a.twikilink[href=\"");
        let url = self.0.relative_url();
        push_str(&mut out, url.as_str());
        push_str(&mut out, "\"]");
        out
    }

    /// Where the article mentions the trope: as an entry of its own, inside
    /// the entry of another trope, or elsewhere.
    pub fn crawl_body(&self, link: &Option<TropeLink>) -> (r: Result<
        ArticleSingleTropeBody,
        CrawlError,
    >)
        ensures
            body_spec(self.0, link_view(*link), r),
    {
        let l = match link {
            Some(l) => l,
            None => return Err(CrawlError::MissingTrope),
        };
        match &l.list_item {
            Some(li) => {
                let text = entry_text_of(&li.text_nodes);
                if li.first_is_link {
                    return Ok(ArticleSingleTropeBody::TopLevel { article_name: self.0.clone(), text });
                }
                let href = match &li.first_href {
                    Some(h) => h,
                    None => return Err(CrawlError::FirstLinkMissingHref),
                };
                let other_article_name = match ArticleName::from_relative_url(href.as_str()) {
                    Ok(a) => a,
                    Err(e) => return Err(CrawlError::InvalidName(e)),
                };
                let own_article_url_range = text_range(text.as_str(), l.link_text.as_str());
                Ok(ArticleSingleTropeBody::InOther { other_article_name, text, own_article_url_range })
            },
            None => match &l.block_text {
                Some(b) => {
                    let url_range = text_range(b.as_str(), l.link_text.as_str());
                    Ok(
                        ArticleSingleTropeBody::Elsewhere {
                            nearest_block_parent_text: b.clone(),
                            url_range,
                        },
                    )
                },
                None => Err(CrawlError::NoBlockParent),
            },
        }
    }
}

/// Reading an article page.
pub struct ArticleCrawl {
    pub article_name: ArticleName,
    pub crawl_body: ArticleCrawlSingleTrope,
}

/// What reading the page gives: no main article, then the title's errors,
/// then the body's; otherwise the page's URL, the article, its title, its
/// summary and body.
pub open spec fn crawl_spec(
    c: ArticleCrawl,
    url: Seq<char>,
    page: ArticlePageView,
    r: Result<ArticleInfo<ArticleSingleTropeBody>, CrawlError>,
) -> bool {
    match page.main {
        None => r == Err::<ArticleInfo<ArticleSingleTropeBody>, CrawlError>(CrawlError::NoMain),
        Some(children) => match title_spec(page.title) {
            Err(e) => r == Err::<ArticleInfo<ArticleSingleTropeBody>, CrawlError>(e),
            Ok(title) => match r {
                Ok(info) => {
                    &&& info.url@ == url
                    &&& info.name == c.article_name
                    &&& info.title@ == title
                    &&& info.summary@ == summary_spec(children)
                    &&& body_spec(c.crawl_body.0, page.trope_link, Ok(info.body))
                },
                Err(e) => body_spec(c.crawl_body.0, page.trope_link, Err(e)),
            },
        },
    }
}

impl ArticleCrawl {
    /// The article's URL.
    pub fn url(&self) -> (r: String)
        ensures
            r@ == article_url_spec(self.article_name@),
    {
        self.article_name.url()
    }

    /// Reads the page found at `url` from its text.
    pub fn crawl_text(&self, url: &str, text: &str) -> (r: Result<
        ArticleInfo<ArticleSingleTropeBody>,
        CrawlError,
    >)
        ensures
            crawl_spec(
                *self,
                url@,
                article_page_spec(text@, Some(link_selector_spec(self.crawl_body.0@))),
                r,
            ),
    {
        let selector = self.crawl_body.link_selector();
        let page = read_article_page(text, Some(selector.as_str()));
        self.crawl(url, &page)
    }

    /// Reads the page found at `url`.
    pub fn crawl(&self, url: &str, page: &ArticlePage) -> (r: Result<
        ArticleInfo<ArticleSingleTropeBody>,
        CrawlError,
    >)
        ensures
            crawl_spec(*self, url@, page@, r),
    {
        let main = match &page.main {
            Some(m) => m,
            None => return Err(CrawlError::NoMain),
        };
        let title = match get_title(&page.title) {
            Ok(t) => t,
            Err(e) => return Err(e),
        };
        let summary = get_summary(main);
        let body = match self.crawl_body.crawl_body(&page.trope_link) {
            Ok(b) => b,
            Err(e) => return Err(e),
        };
        let mut owned_url = String::new();
        push_str(&mut owned_url, url);
        Ok(ArticleInfo { url: owned_url, name: self.article_name.clone(), title, summary, body })
    }
}

} // verus!
