//! Article names: a group ("Main" when omitted) and a page, their textual
//! form, their order (the main group first) and their URLs on the wiki.

use vstd::prelude::*;
use crate::text::{
    chars_of, chars_eq, str_eq, compare_chars, find_char, first_index_of, has_prefix, lemma_first_index_unique, lemma_lex_irreflexive,
    lemma_first_index_of, lemma_lex_asymmetric, lemma_lex_total, lemma_lex_transitive, decimal, decimal_string,
    lex_lt, lex_order, slice_skip, slice_take, starts_with, string_of, Order,
};
use crate::term::{link, link_text};

verus! {

broadcast use vstd::string::group_string_axioms;

/// The name of the default group.
pub open spec fn main_group_name() -> Seq<char> {
    seq!['M', 'a', 'i', 'n']
}

/// Why a text is not an article name.
#[derive(Debug, Clone, Copy, PartialEq, Eq)]
pub enum NameError {
    /// "group name must not be empty"
    EmptyGroup,
    /// "page name must not be empty"
    EmptyPage,
    /// The URL does not point at an article page.
    NotArticleUrl,
}

/* -------------------------------------------------------------------------- */
/*                                 Group name                                 */
/* -------------------------------------------------------------------------- */

/// A non-empty group name.  The first field is `false` exactly for the main
/// group, so that the derived order puts the main group before all others
/// and orders the rest by name.
#[derive(Debug, PartialEq, Eq, PartialOrd, Ord, Hash)]
pub struct GroupName {
    not_main: bool,
    name: String,
}

impl View for GroupName {
    type V = Seq<char>;

    closed spec fn view(&self) -> Seq<char> {
        self.name@
    }
}

/// Strict order of group names: the main group first, the others by name.
pub open spec fn group_lt(a: Seq<char>, b: Seq<char>) -> bool {
    ||| (a == main_group_name() && b != main_group_name())
    ||| ((a == main_group_name()) == (b == main_group_name()) && lex_lt(a, b))
}

pub open spec fn group_order(a: Seq<char>, b: Seq<char>) -> Order {
    if a == b {
        Order::Equal
    } else if group_lt(a, b) {
        Order::Less
    } else {
        Order::Greater
    }
}

impl GroupName {
    #[verifier::type_invariant]
    pub closed spec fn valid(self) -> bool {
        &&& self.name@.len() > 0
        &&& self.not_main == (self.name@ != main_group_name())
    }

    fn new_unchecked(name: String) -> (g: GroupName)
        requires
            name@.len() > 0,
        ensures
            g@ == name@,
    {
        let cs = chars_of(name.as_str());
        let main = chars_of("Main");
        proof {
            reveal_strlit("Main");
            assert(main@ =~= main_group_name());
        }
        let not_main = !chars_eq(cs.as_slice(), main.as_slice());
        GroupName { not_main, name }
    }

    /// Parses a group name; it must not be empty.
    pub fn from_str(s: &str) -> (r: Result<GroupName, NameError>)
        ensures
            s@.len() == 0 ==> r == Err::<GroupName, NameError>(NameError::EmptyGroup),
            s@.len() > 0 ==> (r matches Ok(g) && g@ == s@),
    {
        if s.is_empty() {
            return Err(NameError::EmptyGroup);
        }
        Ok(Self::new_unchecked(s.to_owned()))
    }

    /// The main group.
    pub fn main() -> (g: GroupName)
        ensures
            g@ == main_group_name(),
    {
        proof {
            reveal_strlit("Main");
        }
        let g = Self::new_unchecked("Main".to_owned());
        assert(g@ =~= main_group_name());
        g
    }

    pub fn is_main(&self) -> (r: bool)
        ensures
            r == (self@ == main_group_name()),
    {
        proof {
            use_type_invariant(self);
        }
        !self.not_main
    }

    pub fn as_str(&self) -> (r: &str)
        ensures
            r@ == self@,
    {
        self.name.as_str()
    }

    /// The group name as text.
    pub fn to_string(&self) -> (r: String)
        ensures
            r@ == self@,
    {
        self.name.clone()
    }

    /// Whether the name is exactly `other`.
    pub fn eq_str(&self, other: &str) -> (r: bool)
        ensures
            r == (self@ == other@),
    {
        str_eq(self.name.as_str(), other)
    }

    /// Whether both names are the same.
    pub fn same(&self, other: &GroupName) -> (r: bool)
        ensures
            r == (self@ == other@),
    {
        str_eq(self.name.as_str(), other.name.as_str())
    }

    /// Three-way comparison: the main group first, the others by name.
    pub fn compare(&self, other: &GroupName) -> (r: Order)
        ensures
            r == group_order(self@, other@),
    {
        let a = self.is_main();
        let b = other.is_main();
        if a && !b {
            Order::Less
        } else if !a && b {
            Order::Greater
        } else {
            let ca = chars_of(self.name.as_str());
            let cb = chars_of(other.name.as_str());
            compare_chars(ca.as_slice(), cb.as_slice())
        }
    }
}

impl Clone for GroupName {
    fn clone(&self) -> (r: GroupName)
        ensures
            r == *self,
    {
        proof {
            use_type_invariant(self);
        }
        GroupName { not_main: self.not_main, name: self.name.clone() }
    }
}

impl Default for GroupName {
    fn default() -> (g: GroupName)
        ensures
            g@ == main_group_name(),
    {
        GroupName::main()
    }
}

/* -------------------------------------------------------------------------- */
/*                                  Page name                                 */
/* -------------------------------------------------------------------------- */

/// A non-empty page name.
#[derive(Debug, PartialEq, Eq, PartialOrd, Ord, Hash)]
pub struct PageName {
    name: String,
}

impl View for PageName {
    type V = Seq<char>;

    closed spec fn view(&self) -> Seq<char> {
        self.name@
    }
}

impl PageName {
    #[verifier::type_invariant]
    pub closed spec fn valid(self) -> bool {
        self.name@.len() > 0
    }

    /// A page name is well formed exactly when it is not empty.
    pub proof fn lemma_valid(&self)
        ensures
            self.valid() <==> self@.len() > 0,
    {
    }

    /// Parses a page name; it must not be empty.
    pub fn from_str(s: &str) -> (r: Result<PageName, NameError>)
        ensures
            s@.len() == 0 ==> r == Err::<PageName, NameError>(NameError::EmptyPage),
            s@.len() > 0 ==> (r matches Ok(p) && p@ == s@),
    {
        if s.is_empty() {
            return Err(NameError::EmptyPage);
        }
        Ok(PageName { name: s.to_owned() })
    }

    pub fn as_str(&self) -> (r: &str)
        ensures
            r@ == self@,
    {
        self.name.as_str()
    }

    /// The page name as text.
    pub fn to_string(&self) -> (r: String)
        ensures
            r@ == self@,
    {
        self.name.clone()
    }

    /// Whether the name is exactly `other`.
    pub fn eq_str(&self, other: &str) -> (r: bool)
        ensures
            r == (self@ == other@),
    {
        str_eq(self.name.as_str(), other)
    }

    /// Three-way comparison by name.
    pub fn compare(&self, other: &PageName) -> (r: Order)
        ensures
            r == lex_order(self@, other@),
    {
        let ca = chars_of(self.name.as_str());
        let cb = chars_of(other.name.as_str());
        compare_chars(ca.as_slice(), cb.as_slice())
    }
}

impl Clone for PageName {
    fn clone(&self) -> (r: PageName)
        ensures
            r == *self,
    {
        proof {
            use_type_invariant(self);
        }
        PageName { name: self.name.clone() }
    }
}


/* -------------------------------------------------------------------------- */
/*                                Article name                                */
/* -------------------------------------------------------------------------- */

/// An article: a group and a page.  Written `Group/Page`; a name without a
/// slash belongs to the main group.
#[derive(Debug, PartialEq, Eq, PartialOrd, Ord, Hash)]
pub struct ArticleName {
    pub group: GroupName,
    pub page: PageName,
}

impl View for ArticleName {
    type V = (Seq<char>, Seq<char>);

    open spec fn view(&self) -> (Seq<char>, Seq<char>) {
        (self.group@, self.page@)
    }
}

impl Clone for ArticleName {
    fn clone(&self) -> (r: ArticleName)
        ensures
            r == *self,
    {
        ArticleName { group: self.group.clone(), page: self.page.clone() }
    }
}

/// What parsing `s` as an article name gives: the text before the first
/// slash is the group, the rest the page; without a slash the group is the
/// main one.  The group is checked before the page.
pub open spec fn parse_article(s: Seq<char>) -> Result<(Seq<char>, Seq<char>), NameError> {
    match first_index_of(s, '/') {
        Some(i) => if i == 0 {
            Err(NameError::EmptyGroup)
        } else if i + 1 == s.len() {
            Err(NameError::EmptyPage)
        } else {
            Ok((s.take(i), s.skip(i + 1)))
        },
        None => if s.len() == 0 {
            Err(NameError::EmptyPage)
        } else {
            Ok((main_group_name(), s))
        },
    }
}

/// The model of a parse result.
pub open spec fn article_result(r: Result<ArticleName, NameError>) -> Result<
    (Seq<char>, Seq<char>),
    NameError,
> {
    match r {
        Ok(a) => Ok(a@),
        Err(e) => Err(e),
    }
}

/// `Group/Page`.
pub open spec fn display_article(a: (Seq<char>, Seq<char>)) -> Seq<char> {
    a.0 + seq!['/'] + a.1
}

/// The page alone for the main group, `Group/Page` otherwise.
pub open spec fn display_without_main_spec(a: (Seq<char>, Seq<char>)) -> Seq<char> {
    if a.0 == main_group_name() {
        a.1
    } else {
        display_article(a)
    }
}

/// Whether the article is the one that the text `s` names.
pub open spec fn article_eq_str(a: (Seq<char>, Seq<char>), s: Seq<char>) -> bool {
    match first_index_of(s, '/') {
        Some(i) => a.0 == s.take(i) && a.1 == s.skip(i + 1),
        None => a.0 == main_group_name() && a.1 == s,
    }
}

/// Strict order of articles: by group (the main group first), then by page.
pub open spec fn article_lt(a: (Seq<char>, Seq<char>), b: (Seq<char>, Seq<char>)) -> bool {
    group_lt(a.0, b.0) || (a.0 == b.0 && lex_lt(a.1, b.1))
}

pub open spec fn article_order(a: (Seq<char>, Seq<char>), b: (Seq<char>, Seq<char>)) -> Order {
    if a == b {
        Order::Equal
    } else if article_lt(a, b) {
        Order::Less
    } else {
        Order::Greater
    }
}

/// `https://tvtropes.org/pmwiki/pmwiki.php/`, what an article's URL starts with.
pub open spec fn article_url_prefix() -> Seq<char> {
    "https://tvtropes.org/pmwiki/pmwiki.php/"@
}

/// `/pmwiki/pmwiki.php/`, what an article's relative URL starts with.
pub open spec fn relative_url_prefix() -> Seq<char> {
    "/pmwiki/pmwiki.php/"@
}

pub open spec fn article_url_spec(a: (Seq<char>, Seq<char>)) -> Seq<char> {
    article_url_prefix() + display_article(a)
}

pub open spec fn relative_url_spec(a: (Seq<char>, Seq<char>)) -> Seq<char> {
    relative_url_prefix() + display_article(a)
}

/// What reading an article from a relative URL gives.
pub open spec fn parse_relative_url(url: Seq<char>) -> Result<(Seq<char>, Seq<char>), NameError> {
    if has_prefix(url, relative_url_prefix()) {
        parse_article(url.skip(relative_url_prefix().len() as int))
    } else {
        Err(NameError::NotArticleUrl)
    }
}

/// Whether a relative URL points at the article.
pub open spec fn matches_relative_url_spec(a: (Seq<char>, Seq<char>), url: Seq<char>) -> bool {
    has_prefix(url, relative_url_prefix()) && article_eq_str(
        a,
        url.skip(relative_url_prefix().len() as int),
    )
}

impl ArticleName {
    /// Both names are non-empty (and the group knows whether it is the main one).
    pub open spec fn valid(self) -> bool {
        self.group.valid() && self.page.valid()
    }

    fn from_chars(cs: &[char]) -> (r: Result<ArticleName, NameError>)
        ensures
            article_result(r) == parse_article(cs@),
    {
        match find_char(cs, '/') {
            Some(i) => {
                let n = cs.len();
                assert(i < n);
                let g = string_of(slice_take(cs, i).as_slice());
                let group = match GroupName::from_str(g.as_str()) {
                    Ok(group) => group,
                    Err(e) => return Err(e),
                };
                let p = string_of(slice_skip(cs, i + 1).as_slice());
                let page = match PageName::from_str(p.as_str()) {
                    Ok(page) => page,
                    Err(e) => return Err(e),
                };
                Ok(ArticleName { group, page })
            },
            None => {
                let p = string_of(cs);
                let page = match PageName::from_str(p.as_str()) {
                    Ok(page) => page,
                    Err(e) => return Err(e),
                };
                Ok(ArticleName { group: GroupName::main(), page })
            },
        }
    }

    /// Parses `Group/Page`, or `Page` for an article of the main group.
    pub fn from_str(s: &str) -> (r: Result<ArticleName, NameError>)
        ensures
            article_result(r) == parse_article(s@),
    {
        let cs = chars_of(s);
        Self::from_chars(cs.as_slice())
    }

    /// `Group/Page`.
    pub fn to_string(&self) -> (r: String)
        ensures
            r@ == display_article(self@),
    {
        let mut out = self.group.to_string();
        out.append("/");
        proof {
            reveal_strlit("/");
        }
        out.append(self.page.as_str());
        assert(out@ =~= display_article(self@));
        out
    }

    /// The page alone for the main group, `Group/Page` otherwise.
    pub fn display_without_main(&self) -> (r: String)
        ensures
            r@ == display_without_main_spec(self@),
    {
        if self.group.is_main() {
            self.page.to_string()
        } else {
            self.to_string()
        }
    }

    /// Whether this article is the one that `other` names: `Group/Page`,
    /// or a page of the main group.
    pub fn eq_str(&self, other: &str) -> (r: bool)
        ensures
            r == article_eq_str(self@, other@),
    {
        let cs = chars_of(other);
        self.eq_chars(cs.as_slice())
    }

    fn eq_chars(&self, cs: &[char]) -> (r: bool)
        ensures
            r == article_eq_str(self@, cs@),
    {
        match find_char(cs, '/') {
            Some(i) => {
                let n = cs.len();
                assert(i < n);
                let g = string_of(slice_take(cs, i).as_slice());
                let p = string_of(slice_skip(cs, i + 1).as_slice());
                self.group.eq_str(g.as_str()) && self.page.eq_str(p.as_str())
            },
            None => {
                let p = string_of(cs);
                self.group.is_main() && self.page.eq_str(p.as_str())
            },
        }
    }

    /// Whether both articles have the same group and page.
    pub fn same(&self, other: &ArticleName) -> (r: bool)
        ensures
            r == (self@ == other@),
    {
        self.group.same(&other.group) && str_eq(self.page.as_str(), other.page.as_str())
    }

    /// Three-way comparison: by group (the main group first), then by page.
    pub fn compare(&self, other: &ArticleName) -> (r: Order)
        ensures
            r == article_order(self@, other@),
    {
        proof {
            lemma_lex_irreflexive(self.group@);
        }
        match self.group.compare(&other.group) {
            Order::Equal => self.page.compare(&other.page),
            o => o,
        }
    }

    /// The article's URL on the wiki.
    pub fn url(&self) -> (r: String)
        ensures
            r@ == article_url_spec(self@),
    {
        let mut out = String::new();
        out.append("https://tvtropes.org/pmwiki/pmwiki.php/");
        let name = self.to_string();
        out.append(name.as_str());
        assert(out@ =~= article_url_spec(self@));
        out
    }

    /// The article's URL relative to the wiki's host.
    pub fn relative_url(&self) -> (r: String)
        ensures
            r@ == relative_url_spec(self@),
    {
        let mut out = String::new();
        out.append("/pmwiki/pmwiki.php/");
        let name = self.to_string();
        out.append(name.as_str());
        assert(out@ =~= relative_url_spec(self@));
        out
    }

    /// Reads the article that a relative URL points at.
    pub fn from_relative_url(url: &str) -> (r: Result<ArticleName, NameError>)
        ensures
            article_result(r) == parse_relative_url(url@),
    {
        let cs = chars_of(url);
        let prefix = chars_of("/pmwiki/pmwiki.php/");
        if !starts_with(cs.as_slice(), prefix.as_slice()) {
            return Err(NameError::NotArticleUrl);
        }
        let rest = slice_skip(cs.as_slice(), prefix.len());
        Self::from_chars(rest.as_slice())
    }

    /// Reads the article that a relative URL points at.
    pub fn from_url(url: &str) -> (r: Result<ArticleName, NameError>)
        ensures
            article_result(r) == parse_relative_url(url@),
    {
        Self::from_relative_url(url)
    }

    /// Whether a relative URL points at this article.
    pub fn matches_relative_url(&self, url: &str) -> (r: bool)
        ensures
            r == matches_relative_url_spec(self@, url@),
    {
        let cs = chars_of(url);
        let prefix = chars_of("/pmwiki/pmwiki.php/");
        if !starts_with(cs.as_slice(), prefix.as_slice()) {
            return false;
        }
        let rest = slice_skip(cs.as_slice(), prefix.len());
        self.eq_chars(rest.as_slice())
    }

    /// A terminal hyperlink to the article, showing its name without the
    /// main group.
    pub fn display_link(&self) -> (r: String)
        ensures
            r@ == link_text(display_without_main_spec(self@), article_url_spec(self@)),
    {
        let name = self.display_without_main();
        let url = self.url();
        link(name.as_str(), url.as_str())
    }
}

/// Parsing the text of an article gives the article back, when its group
/// holds no slash.
pub proof fn lemma_parse_display(a: ArticleName)
    requires
        a.valid(),
        !a.group@.contains('/'),
    ensures
        parse_article(display_article(a@)) == Ok::<(Seq<char>, Seq<char>), NameError>(a@),
{
    let s = display_article(a@);
    let g = a.group@;
    assert(s[g.len() as int] == '/');
    assert(s.take(g.len() as int) =~= g);
    lemma_first_index_unique(s, '/', g.len() as int);
    assert(s.skip(g.len() as int + 1) =~= a.page@);
}


/// An article equals a text exactly when the text parses to that article.
pub proof fn lemma_eq_str_iff_parse(a: ArticleName, s: Seq<char>)
    requires
        a.valid(),
    ensures
        article_eq_str(a@, s) <==> parse_article(s) == Ok::<(Seq<char>, Seq<char>), NameError>(
            a@,
        ),
{
    lemma_first_index_of(s, '/');
    if let Some(i) = first_index_of(s, '/') {
        if i + 1 == s.len() {
            assert(s.skip(i + 1).len() == 0);
        }
        if i == 0 {
            assert(s.take(i).len() == 0);
        }
    }
}

/// The order of articles is a strict total order: irreflexive, transitive
/// and total on distinct articles.
pub proof fn lemma_article_order_total(
    a: (Seq<char>, Seq<char>),
    b: (Seq<char>, Seq<char>),
    c: (Seq<char>, Seq<char>),
)
    ensures
        !article_lt(a, a),
        article_lt(a, b) && article_lt(b, c) ==> article_lt(a, c),
        a != b ==> (article_lt(a, b) || article_lt(b, a)),
        article_lt(a, b) ==> !article_lt(b, a),
{
    lemma_lex_irreflexive(a.0);
    lemma_lex_irreflexive(a.1);
    if article_lt(a, b) && article_lt(b, c) {
        if group_lt(a.0, b.0) && group_lt(b.0, c.0) {
            if lex_lt(a.0, b.0) && lex_lt(b.0, c.0) {
                lemma_lex_transitive(a.0, b.0, c.0);
            }
        }
        if a.0 == b.0 && b.0 == c.0 {
            lemma_lex_transitive(a.1, b.1, c.1);
        }
    }
    if a != b {
        if a.0 != b.0 {
            lemma_lex_total(a.0, b.0);
        } else {
            assert(a.1 != b.1);
            lemma_lex_total(a.1, b.1);
        }
    }
    if article_lt(a, b) {
        if a.0 == b.0 {
            lemma_lex_irreflexive(a.0);
            lemma_lex_asymmetric(a.1, b.1);
        } else if lex_lt(a.0, b.0) {
            lemma_lex_asymmetric(a.0, b.0);
        }
    }
}

/// An article of the main group sorts before every article of another group.
pub proof fn lemma_main_sorts_first(a: (Seq<char>, Seq<char>), b: (Seq<char>, Seq<char>))
    requires
        a.0 == main_group_name(),
        b.0 != main_group_name(),
    ensures
        article_lt(a, b),
        group_lt(a.0, b.0),
{
}

/// Reading the relative URL of an article gives the article back, and the
/// URL matches the article, when its group holds no slash.
pub proof fn lemma_relative_url_roundtrip(a: ArticleName)
    requires
        a.valid(),
        !a.group@.contains('/'),
    ensures
        parse_relative_url(relative_url_spec(a@)) == Ok::<(Seq<char>, Seq<char>), NameError>(
            a@,
        ),
        matches_relative_url_spec(a@, relative_url_spec(a@)),
{
    let u = relative_url_spec(a@);
    let p = relative_url_prefix();
    assert(u.take(p.len() as int) =~= p);
    assert(u.skip(p.len() as int) =~= display_article(a@));
    lemma_parse_display(a);
    lemma_eq_str_iff_parse(a, display_article(a@));
}

/// Parsing the name shown without the main group gives the article back,
/// when the shown text holds the group only after a slash.
pub proof fn lemma_parse_display_without_main(a: ArticleName)
    requires
        a.valid(),
        !a.group@.contains('/'),
        a.group@ == main_group_name() ==> !a.page@.contains('/'),
    ensures
        parse_article(display_without_main_spec(a@)) == Ok::<(Seq<char>, Seq<char>), NameError>(
            a@,
        ),
{
    if a.group@ == main_group_name() {
        lemma_first_index_of(a.page@, '/');
    } else {
        lemma_parse_display(a);
    }
}

/* -------------------------------------------------------------------------- */
/*                             Related-search URL                             */
/* -------------------------------------------------------------------------- */

/// `https://tvtropes.org/pmwiki/relatedsearch.php?term=`
pub open spec fn related_url_prefix() -> Seq<char> {
    "https://tvtropes.org/pmwiki/relatedsearch.php?term="@
}

/// `&groupname_search=`
pub open spec fn related_group_param() -> Seq<char> {
    "&groupname_search="@
}

/// `&page=`
pub open spec fn related_page_param() -> Seq<char> {
    "&page="@
}

/// The related-search URL for an article, optionally restricted to a group
/// and at a page of results.
pub open spec fn related_url_spec(
    article: (Seq<char>, Seq<char>),
    group: Option<Seq<char>>,
    page: Option<u8>,
) -> Seq<char> {
    related_url_prefix() + display_article(article) + match group {
        Some(g) => related_group_param() + g,
        None => Seq::empty(),
    } + match page {
        Some(p) => related_page_param() + decimal(p as nat),
        None => Seq::empty(),
    }
}

/// Builds the URL that lists the articles related to an article.
#[derive(Debug)]
pub struct RelatedUrlBuilder<'a> {
    article: &'a ArticleName,
    group: Option<&'a GroupName>,
    page: Option<u8>,
}

/// The same builder under the name the URL helpers use.
pub type ArticleRelatedUrlBuilder<'a> = RelatedUrlBuilder<'a>;

impl<'a> RelatedUrlBuilder<'a> {
    pub closed spec fn article(&self) -> (Seq<char>, Seq<char>) {
        self.article@
    }

    pub closed spec fn group_filter(&self) -> Option<Seq<char>> {
        match self.group {
            Some(g) => Some(g@),
            None => None,
        }
    }

    pub closed spec fn page_number(&self) -> Option<u8> {
        self.page
    }

    /// Restricts the search to a group, or lifts the restriction.
    pub fn group(&mut self, group: Option<&'a GroupName>) -> (r: &mut Self)
        ensures
            r.article() == old(self).article(),
            r.page_number() == old(self).page_number(),
            r.group_filter() == match group {
                Some(g) => Some(g@),
                None => None::<Seq<char>>,
            },
            *final(self) == *final(r),
    {
        self.group = group;
        self
    }

    /// Selects a page of results.
    pub fn page(&mut self, page: u8) -> (r: &mut Self)
        ensures
            r.article() == old(self).article(),
            r.group_filter() == old(self).group_filter(),
            r.page_number() == Some(page),
            *final(self) == *final(r),
    {
        self.page = Some(page);
        self
    }

    /// The URL.
    pub fn build(&self) -> (r: String)
        ensures
            r@ == related_url_spec(self.article(), self.group_filter(), self.page_number()),
    {
        let mut out = String::new();
        out.append("https://tvtropes.org/pmwiki/relatedsearch.php?term=");
        let name = self.article.to_string();
        out.append(name.as_str());
        let ghost after_term = out@;
        if let Some(group) = self.group {
            out.append("&groupname_search=");
            out.append(group.as_str());
        }
        let ghost after_group = out@;
        if let Some(page) = self.page {
            out.append("&page=");
            let digits = decimal_string(page as u128);
            out.append(digits.as_str());
        }
        assert(out@ =~= related_url_spec(self.article(), self.group_filter(), self.page_number()));
        out
    }
}

impl ArticleName {
    /// A builder of the related-search URL for this article, with no group
    /// and no page.
    pub fn related_url(&self) -> (r: RelatedUrlBuilder<'_>)
        ensures
            r.article() == self@,
            r.group_filter() is None,
            r.page_number() is None,
    {
        RelatedUrlBuilder { article: self, group: None, page: None }
    }
}

/// The related-search URL of `article`, restricted to `group` when given,
/// at result page `page`.
pub fn related_search_url(article: &ArticleName, group: Option<&GroupName>, page: u8) -> (r: String)
    ensures
        r@ == related_url_spec(
            article@,
            match group {
                Some(g) => Some(g@),
                None => None::<Seq<char>>,
            },
            Some(page),
        ),
{
    let mut builder = article.related_url();
    builder.group(group).page(page).build()
}


/// The URL of an article on the wiki.
pub fn article_url(article: &ArticleName) -> (r: String)
    ensures
        r@ == article_url_spec(article@),
{
    article.url()
}

/// A builder of the related-search URL of an article.
pub fn related_url(article: &ArticleName) -> (r: RelatedUrlBuilder<'_>)
    ensures
        r.article() == article@,
        r.group_filter() is None,
        r.page_number() is None,
{
    article.related_url()
}

/// Reads the article that a relative URL points at.
pub fn article_from_url(url: &str) -> (r: Result<ArticleName, NameError>)
    ensures
        article_result(r) == parse_relative_url(url@),
{
    ArticleName::from_relative_url(url)
}

} // verus!
