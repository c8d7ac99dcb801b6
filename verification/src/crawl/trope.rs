//! Reading tropes from an article page.

use vstd::prelude::*;
use crate::data::{TropeDataFlatList, TropeDataSingle, TropeDataStub};
use crate::name::{ArticleName, matches_relative_url_spec, parse_relative_url};
use super::{CrawlError, concat_all, entry_text, entry_text_of, texts};
use crate::text::push_str;
use super::page::{
    link_targets, link_targets_spec, link_texts, link_texts_spec, list_link_view, list_links,
    list_links_spec, list_links_view, opt_text_view, opt_texts,
};

verus! {

/// A link of a page's trope lists, as read from the page.
pub struct TropeListLink {
    pub href: Option<String>,
    /// The texts of the element that holds the link, if it is an element.
    pub parent_text_nodes: Option<Vec<String>>,
}

/// Reads nothing.
#[derive(Debug)]
pub struct TropeQueryIgnore;

impl TropeQueryIgnore {
    pub fn query() {
    }
}

/// Reads the text of each trope link.
#[derive(Debug)]
pub struct TropeQueryFlatList;

impl TropeQueryFlatList {
    /// Each link's texts, joined.
    pub fn query(links: &Vec<Vec<String>>) -> (r: Vec<String>)
        ensures
            r@.len() == links@.len(),
            forall|i: int| 0 <= i < links@.len() ==> (#[trigger] r@[i])@ == concat_all(texts(links@[i]@)),
    {
        let mut out: Vec<String> = Vec::new();
        let mut i: usize = 0;
        while i < links.len()
            invariant
                i <= links@.len(),
                out@.len() == i,
                forall|j: int| 0 <= j < i ==> (#[trigger] out@[j])@ == concat_all(texts(links@[j]@)),
            decreases links@.len() - i,
        {
            let parts = &links[i];
            let mut s = String::new();
            let mut k: usize = 0;
            while k < parts.len()
                invariant
                    k <= parts@.len(),
                    s@ == concat_all(texts(parts@).take(k as int)),
                decreases parts@.len() - k,
            {
                assert(texts(parts@).take(k + 1).drop_last() =~= texts(parts@).take(k as int));
                push_str(&mut s, parts[k].as_str());
                k = k + 1;
            }
            assert(texts(parts@).take(k as int) =~= texts(parts@));
            out.push(s);
            i = i + 1;
        }
        out
    }

    /// The text of each trope link of an article page, in the order in
    /// which the links are picked.
    pub fn query_text(text: &str) -> (r: Vec<String>)
        ensures
            r@.len() == link_texts_spec(text@, trope_selector()).len(),
            forall|i: int|
                0 <= i < r@.len() ==> (#[trigger] r@[i])@ == concat_all(
                    link_texts_spec(text@, trope_selector())[i],
                ),
    {
        let links = link_texts(text, "li > a.twikilink:first-child");
        let r = Self::query(&links);
        assert forall|i: int| 0 <= i < r@.len() implies (#[trigger] r@[i])@ == concat_all(
            link_texts_spec(text@, trope_selector())[i],
        ) by {
            assert(texts(links@[i]@) == link_texts_spec(text@, trope_selector())[i]);
        }
        r
    }
}

/// Reads no tropes.
#[derive(Debug)]
pub struct Stub;

impl Stub {
    pub fn query(&self) -> (r: TropeDataStub) {
        TropeDataStub
    }
}

/// The first link whose target is the trope's page.
pub open spec fn first_trope_link(
    trope: (Seq<char>, Seq<char>),
    links: Seq<(Option<Seq<char>>, Option<Seq<Seq<char>>>)>,
) -> Option<int>
    decreases links.len(),
{
    if links.len() == 0 {
        None
    } else {
        match first_trope_link(trope, links.drop_last()) {
            Some(i) => Some(i),
            None => if links.last().0 matches Some(h) && matches_relative_url_spec(trope, h) {
                Some(links.len() - 1)
            } else {
                None
            },
        }
    }
}

/// What reading one trope's entry gives: missing when no link points at
/// the trope; an error when the link has no element around it; the entry's
/// text otherwise, none when it is empty.
pub open spec fn single_spec(
    trope: ArticleName,
    links: Seq<(Option<Seq<char>>, Option<Seq<Seq<char>>>)>,
    r: Result<
    TropeDataSingle,
    CrawlError,
>) -> bool {
    match first_trope_link(trope@, links) {
        None => r matches Ok(d) && d.trope == trope && d.text is None,
        Some(i) => match links[i].1 {
            None => r == Err::<TropeDataSingle, CrawlError>(CrawlError::ParentMissing),
            Some(nodes) => {
                let text = entry_text(nodes);
                r matches Ok(d) && d.trope == trope && if text.len() == 0 {
                    d.text is None
                } else {
                    d.text matches Some(t) && t@ == text
                }
            },
        },
    }
}

/// Reads the entry of one trope.
#[derive(Debug)]
pub struct Single<'a>(pub &'a ArticleName);

impl Single<'_> {
    pub fn query(&self, links: &Vec<TropeListLink>) -> (r: Result<TropeDataSingle, CrawlError>)
        ensures
            single_spec(*self.0, list_links_view(links@), r),
    {
        let ghost lv = list_links_view(links@);
        let trope = self.0.clone();
        let mut i: usize = 0;
        while i < links.len()
            invariant
                i <= links@.len(),
                trope == *self.0,
                lv == list_links_view(links@),
                first_trope_link(self.0@, lv.take(i as int)) is None,
            decreases links@.len() - i,
        {
            assert(lv.take(i + 1).drop_last() =~= lv.take(i as int));
            let found = match &links[i].href {
                Some(h) => self.0.matches_relative_url(h.as_str()),
                None => false,
            };
            if found {
                proof {
                    assert(lv.take(i + 1).last() == list_link_view(links@[i as int]));
                    assert(first_trope_link(self.0@, lv.take(i + 1)) == Some(i as int));
                    lemma_first_trope_link_extends(self.0@, lv, (i + 1) as int);
                }
                return match &links[i].parent_text_nodes {
                    None => Err(CrawlError::ParentMissing),
                    Some(nodes) => {
                        let text = entry_text_of(nodes);
                        if text.as_str().is_empty() {
                            Ok(TropeDataSingle { trope, text: None })
                        } else {
                            Ok(TropeDataSingle { trope, text: Some(text) })
                        }
                    },
                };
            }
            i = i + 1;
        }
        assert(lv.take(i as int) =~= lv);
        Ok(TropeDataSingle { trope, text: None })
    }
}

/// Once a prefix has a link to the trope, every longer prefix has the same.
proof fn lemma_first_trope_link_extends(
    trope: (Seq<char>, Seq<char>),
    links: Seq<(Option<Seq<char>>, Option<Seq<Seq<char>>>)>,
    j: int,
)
    requires
        0 <= j <= links.len(),
        first_trope_link(trope, links.take(j)) is Some,
    ensures
        first_trope_link(trope, links) == first_trope_link(trope, links.take(j)),
    decreases links.len() - j,
{
    if j == links.len() {
        assert(links.take(j) =~= links);
    } else {
        assert(links.take(j + 1).drop_last() =~= links.take(j));
        lemma_first_trope_link_extends(trope, links, j + 1);
    }
}

/// The articles that the links point at, in order; an error for the first
/// link without a target or with one that is no article.
pub open spec fn flat_list_spec(hrefs: Seq<Option<Seq<char>>>) -> Result<
    Seq<(Seq<char>, Seq<char>)>,
    CrawlError,
>
    decreases hrefs.len(),
{
    if hrefs.len() == 0 {
        Ok(Seq::empty())
    } else {
        match flat_list_spec(hrefs.drop_last()) {
            Err(e) => Err(e),
            Ok(names) => match hrefs.last() {
                None => Err(CrawlError::LinkMissingHref),
                Some(h) => match parse_relative_url(h) {
                    Err(e) => Err(CrawlError::InvalidName(e)),
                    Ok(a) => Ok(names.push(a)),
                },
            },
        }
    }
}

/// The articles of a list, by their names.
pub open spec fn names_view(v: Seq<ArticleName>) -> Seq<(Seq<char>, Seq<char>)> {
    Seq::new(v.len(), |i: int| v[i]@)
}

/// Reads the trope links as articles; any link that is missing its target
/// or points elsewhere is an error.
pub fn articles_of_links(hrefs: &Vec<Option<String>>) -> (r: Result<Vec<ArticleName>, CrawlError>)
    ensures
        match flat_list_spec(opt_texts(hrefs@)) {
            Ok(names) => r matches Ok(v) && names_view(v@) == names,
            Err(e) => r == Err::<Vec<ArticleName>, CrawlError>(e),
        },
{
    let ghost hv = opt_texts(hrefs@);
    let mut out: Vec<ArticleName> = Vec::new();
    let mut i: usize = 0;
    assert(hv.take(0) =~= Seq::<Option<Seq<char>>>::empty());
    assert(names_view(out@) =~= Seq::<(Seq<char>, Seq<char>)>::empty());
    while i < hrefs.len()
        invariant
            i <= hrefs@.len(),
            hv == opt_texts(hrefs@),
            flat_list_spec(hv.take(i as int)) == Ok::<_, CrawlError>(names_view(out@)),
        decreases hrefs@.len() - i,
    {
        assert(hv.take(i + 1).drop_last() =~= hv.take(i as int));
        assert(hv.take(i + 1).last() == opt_text_view(hrefs@[i as int]));
        let h = match &hrefs[i] {
            Some(h) => h,
            None => {
                proof {
                    lemma_flat_list_error_extends(hv, (i + 1) as int);
                }
                return Err(CrawlError::LinkMissingHref);
            },
        };
        match ArticleName::from_url(h.as_str()) {
            Ok(a) => {
                let ghost before = out@;
                out.push(a);
                assert(names_view(out@) =~= names_view(before).push(a@));
            },
            Err(e) => {
                proof {
                    lemma_flat_list_error_extends(hv, (i + 1) as int);
                }
                return Err(CrawlError::InvalidName(e));
            },
        }
        i = i + 1;
    }
    assert(hv.take(i as int) =~= hv);
    Ok(out)
}

/// Once a prefix fails, the whole fails the same way.
pub proof fn lemma_flat_list_error_extends(hrefs: Seq<Option<Seq<char>>>, j: int)
    requires
        0 <= j <= hrefs.len(),
        flat_list_spec(hrefs.take(j)) is Err,
    ensures
        flat_list_spec(hrefs) == flat_list_spec(hrefs.take(j)),
    decreases hrefs.len() - j,
{
    if j == hrefs.len() {
        assert(hrefs.take(j) =~= hrefs);
    } else {
        assert(hrefs.take(j + 1).drop_last() =~= hrefs.take(j));
        lemma_flat_list_error_extends(hrefs, j + 1);
    }
}

/// `li > a.twikilink:first-child`, the links that open the entries of a
/// page's trope lists.
pub open spec fn trope_selector() -> Seq<char> {
    "li > a.twikilink:first-child"@
}

impl Single<'_> {
    /// Reads the entry of the trope from the text of an article page.
    pub fn query_text(&self, text: &str) -> (r: Result<TropeDataSingle, CrawlError>)
        ensures
            single_spec(*self.0, list_links_spec(text@, trope_selector()), r),
    {
        let links = list_links(text, "li > a.twikilink:first-child");
        self.query(&links)
    }
}

/// Reads the list of all tropes.
#[derive(Debug)]
pub struct FlatList;

impl FlatList {
    pub fn query(&self, hrefs: &Vec<Option<String>>) -> (r: Result<TropeDataFlatList, CrawlError>)
        ensures
            match flat_list_spec(opt_texts(hrefs@)) {
                Ok(names) => r matches Ok(d) && names_view(d.0@) == names,
                Err(e) => r == Err::<TropeDataFlatList, CrawlError>(e),
            },
    {
        match articles_of_links(hrefs) {
            Ok(v) => Ok(TropeDataFlatList(v)),
            Err(e) => Err(e),
        }
    }

    /// Reads the list of all tropes from the text of an article page.
    pub fn query_text(&self, text: &str) -> (r: Result<TropeDataFlatList, CrawlError>)
        ensures
            match flat_list_spec(link_targets_spec(text@, trope_selector())) {
                Ok(names) => r matches Ok(d) && names_view(d.0@) == names,
                Err(e) => r == Err::<TropeDataFlatList, CrawlError>(e),
            },
    {
        let hrefs = link_targets(text, "li > a.twikilink:first-child");
        self.query(&hrefs)
    }
}

} // verus!
