//! Lists of articles: a list kept in article order, and a map from
//! articles that remembers the order of insertion.

use vstd::prelude::*;
use ahash::RandomState;
use indexmap::IndexSet;
use crate::name::{ArticleName, article_lt, lemma_article_order_total};
use crate::text::Order;

verus! {

/// Every article of `s` is at most each article after it.
pub open spec fn sorted(s: Seq<ArticleName>) -> bool {
    forall|i: int, j: int| 0 <= i < j < s.len() ==> !article_lt(#[trigger] s[j]@, #[trigger] s[i]@)
}

/// `after` is `before` with `article` inserted at `i`; in a sorted
/// `before`, exactly the articles before `i` sort before `article`.
pub open spec fn inserted_at(
    before: Seq<ArticleName>,
    after: Seq<ArticleName>,
    article: ArticleName,
    i: int,
) -> bool {
    &&& 0 <= i <= before.len()
    &&& after == before.insert(i, article)
    &&& sorted(before) ==> forall|k: int|
        0 <= k < i ==> article_lt(#[trigger] before[k]@, article@)
    &&& sorted(before) ==> forall|k: int|
        i <= k < before.len() ==> !article_lt(#[trigger] before[k]@, article@)
}

/// A list of articles.  `push` keeps a sorted list sorted;
/// `push_assume_sorted` appends, for callers that add articles in order.
#[derive(Debug)]
pub struct ArticleList(Vec<ArticleName>);

impl View for ArticleList {
    type V = Seq<ArticleName>;

    closed spec fn view(&self) -> Seq<ArticleName> {
        self.0@
    }
}

impl Default for ArticleList {
    fn default() -> (r: ArticleList)
        ensures
            r@ == Seq::<ArticleName>::empty(),
    {
        ArticleList::new()
    }
}

impl ArticleList {
    /// An empty list.
    pub fn new() -> (r: ArticleList)
        ensures
            r@ == Seq::<ArticleName>::empty(),
    {
        ArticleList(Vec::new())
    }

    /// Inserts `article` at the place that a binary search finds: in a
    /// sorted list, after every article that sorts before it and before
    /// every other one.
    pub fn push(&mut self, article: ArticleName)
        ensures
            exists|i: int| inserted_at(old(self)@, final(self)@, article, i),
            sorted(old(self)@) ==> sorted(final(self)@),
    {
        let mut lo: usize = 0;
        let mut hi: usize = self.0.len();
        while lo < hi
            invariant
                self@ == old(self)@,
                lo <= hi <= self.0@.len(),
                sorted(self.0@) ==> forall|k: int|
                    0 <= k < lo ==> article_lt(#[trigger] self.0@[k]@, article@),
                sorted(self.0@) ==> forall|k: int|
                    hi <= k < self.0@.len() ==> !article_lt(#[trigger] self.0@[k]@, article@),
            decreases hi - lo,
        {
            let mid = lo + (hi - lo) / 2;
            match self.0[mid].compare(&article) {
                Order::Less => {
                    proof {
                        if sorted(self.0@) {
                            assert forall|k: int| 0 <= k <= mid implies article_lt(
                                #[trigger] self.0@[k]@,
                                article@,
                            ) by {
                                if k < mid {
                                    lemma_article_order_total(self.0@[k]@, self.0@[mid as int]@, article@);
                                    lemma_article_order_total(self.0@[mid as int]@, self.0@[k]@, article@);
                                    if self.0@[k]@ != self.0@[mid as int]@ {
                                        assert(!article_lt(self.0@[mid as int]@, self.0@[k]@));
                                    }
                                }
                            }
                        }
                    }
                    lo = mid + 1;
                },
                _ => {
                    proof {
                        if sorted(self.0@) {
                            assert forall|k: int| mid <= k < self.0@.len() implies !article_lt(
                                #[trigger] self.0@[k]@,
                                article@,
                            ) by {
                                lemma_article_order_total(self.0@[mid as int]@, article@, article@);
                                if k > mid {
                                    assert(!article_lt(self.0@[k]@, self.0@[mid as int]@));
                                    lemma_article_order_total(article@, self.0@[mid as int]@, self.0@[k]@);
                                    lemma_article_order_total(self.0@[k]@, article@, self.0@[mid as int]@);
                                    lemma_article_order_total(self.0@[mid as int]@, self.0@[k]@, article@);
                                    if self.0@[mid as int]@ != self.0@[k]@ {
                                        assert(article_lt(self.0@[mid as int]@, self.0@[k]@));
                                    }
                                }
                            }
                        }
                    }
                    hi = mid;
                },
            }
        }
        let ghost before = self.0@;
        self.0.insert(lo, article);
        proof {
            let after = self.0@;
            assert(after == before.insert(lo as int, article));
            assert(inserted_at(before, after, article, lo as int));
            assert(before == old(self)@);
            assert(inserted_at(old(self)@, self@, article, lo as int));
            if sorted(before) {
                assert forall|i: int, j: int| 0 <= i < j < after.len() implies !article_lt(
                    #[trigger] after[j]@,
                    #[trigger] after[i]@,
                ) by {
                    if i < lo && j == lo {
                        lemma_article_order_total(after[i]@, after[j]@, after[i]@);
                    } else if i == lo && j > lo {
                        assert(after[j] == before[j - 1]);
                    } else if i < lo && j > lo {
                        assert(after[i] == before[i]);
                        assert(after[j] == before[j - 1]);
                    } else if j < lo {
                        assert(after[i] == before[i] && after[j] == before[j]);
                    } else {
                        assert(after[i] == before[i - 1] && after[j] == before[j - 1]);
                    }
                }
            }
        }
    }

    /// Appends `article` at the end.
    pub fn push_assume_sorted(&mut self, article: ArticleName)
        ensures
            final(self)@ == old(self)@.push(article),
    {
        self.0.push(article);
    }

    pub fn len(&self) -> (r: usize)
        ensures
            r == self@.len(),
    {
        self.0.len()
    }

    /// The articles, in order.
    pub fn as_slice(&self) -> (r: &[ArticleName])
        ensures
            r@ == self@,
    {
        self.0.as_slice()
    }
}


/// Position of the entry whose key is `key`.
pub open spec fn key_index<T>(entries: Seq<(ArticleName, T)>, key: (Seq<char>, Seq<char>)) -> Option<int>
    decreases entries.len(),
{
    if entries.len() == 0 {
        None
    } else if entries.last().0@ == key {
        Some(entries.len() - 1)
    } else {
        key_index(entries.drop_last(), key)
    }
}

/// No two entries have the same key.
pub open spec fn keys_unique<T>(entries: Seq<(ArticleName, T)>) -> bool {
    forall|i: int, j: int|
        0 <= i < j < entries.len() ==> #[trigger] entries[i].0@ != #[trigger] entries[j].0@
}

proof fn lemma_key_index<T>(entries: Seq<(ArticleName, T)>, key: (Seq<char>, Seq<char>))
    ensures
        key_index(entries, key) matches Some(i) ==> 0 <= i < entries.len() && entries[i].0@ == key,
        key_index(entries, key) is None ==> forall|i: int|
            0 <= i < entries.len() ==> #[trigger] entries[i].0@ != key,
    decreases entries.len(),
{
    if entries.len() > 0 {
        lemma_key_index(entries.drop_last(), key);
        if entries.last().0@ != key {
            assert forall|i: int| 0 <= i < entries.len() - 1 implies #[trigger] entries[i] == entries.drop_last()[i] by {}
        }
    }
}

proof fn lemma_key_index_unique<T>(entries: Seq<(ArticleName, T)>, key: (Seq<char>, Seq<char>), i: int)
    requires
        keys_unique(entries),
        0 <= i < entries.len(),
        entries[i].0@ == key,
    ensures
        key_index(entries, key) == Some(i),
    decreases entries.len(),
{
    if i < entries.len() - 1 {
        assert(entries.drop_last()[i] == entries[i]);
        assert(entries.last() == entries[entries.len() - 1]);
        lemma_key_index_unique(entries.drop_last(), key, i);
    }
}

#[verifier::external_type_specification]
#[verifier::external_body]
pub struct ExRandomState(RandomState);

#[verifier::external_type_specification]
#[verifier::external_body]
#[verifier::reject_recursive_types(T)]
#[verifier::reject_recursive_types(S)]
pub struct ExIndexSet<T, S>(IndexSet<T, S>);

/// The keys that an index of articles holds, in order of insertion.
pub uninterp spec fn index_keys(s: IndexSet<(String, String), RandomState>) -> Seq<(Seq<char>, Seq<char>)>;

/// `IndexSet::default` of indexmap: a set that holds no key.
#[verifier::external_body]
fn empty_index() -> (r: IndexSet<(String, String), RandomState>)
    ensures
        index_keys(r) == Seq::<(Seq<char>, Seq<char>)>::empty(),
{
    IndexSet::default()
}

/// `IndexSet::get_index_of` of indexmap: the position of the key equal to
/// `key`, or `None` where the set holds no such key.
#[verifier::external_body]
fn index_of(s: &IndexSet<(String, String), RandomState>, key: &(String, String)) -> (r: Option<usize>)
    ensures
        match r {
            Some(i) => i < index_keys(*s).len() && index_keys(*s)[i as int] == (key.0@, key.1@),
            None => !index_keys(*s).contains((key.0@, key.1@)),
        },
{
    s.get_index_of(key)
}

/// `IndexSet::insert_full` of indexmap: a key equal to none that the set
/// holds goes last, and its position comes back with `true`; otherwise the
/// set is left as it was, and the position of the equal key comes back
/// with `false`.
#[verifier::external_body]
fn add_key(s: &mut IndexSet<(String, String), RandomState>, key: (String, String)) -> (r: (usize, bool))
    ensures
        index_keys(*old(s)).contains((key.0@, key.1@)) ==> {
            &&& index_keys(*final(s)) == index_keys(*old(s))
            &&& !r.1
            &&& r.0 < index_keys(*old(s)).len()
            &&& index_keys(*old(s))[r.0 as int] == (key.0@, key.1@)
        },
        !index_keys(*old(s)).contains((key.0@, key.1@)) ==> {
            &&& index_keys(*final(s)) == index_keys(*old(s)).push((key.0@, key.1@))
            &&& r.1
            &&& r.0 == index_keys(*old(s)).len()
        },
{
    s.insert_full(key)
}

/// The keys of `entries`, in order.
pub open spec fn keys_of<T>(entries: Seq<(ArticleName, T)>) -> Seq<(Seq<char>, Seq<char>)> {
    entries.map_values(|e: (ArticleName, T)| e.0@)
}

/// The key under which the index holds `article`.
fn index_key(article: &ArticleName) -> (r: (String, String))
    ensures
        (r.0@, r.1@) == article@,
{
    (article.group.as_str().to_owned(), article.page.as_str().to_owned())
}

/// A map from articles to values that remembers the order in which the
/// articles were first inserted.  An insertion-ordered set of indexmap
/// finds an article's position; the entries stand at those positions.
#[derive(Debug)]
pub struct ArticleMap<T> {
    index: IndexSet<(String, String), RandomState>,
    entries: Vec<(ArticleName, T)>,
}

impl<T> ArticleMap<T> {
    #[verifier::type_invariant]
    pub closed spec fn valid(self) -> bool {
        &&& keys_unique(self.entries@)
        &&& index_keys(self.index) == keys_of(self.entries@)
    }

    /// The entries, in order of first insertion.
    pub closed spec fn entries(&self) -> Seq<(ArticleName, T)> {
        self.entries@
    }

    /// The value stored for an article.
    pub open spec fn value_of(&self, key: (Seq<char>, Seq<char>)) -> Option<T> {
        match key_index(self.entries(), key) {
            Some(i) => Some(self.entries()[i].1),
            None => None,
        }
    }

    /// An empty map.
    pub fn new() -> (r: ArticleMap<T>)
        ensures
            r.entries() == Seq::<(ArticleName, T)>::empty(),
    {
        let index = empty_index();
        let entries: Vec<(ArticleName, T)> = Vec::new();
        proof {
            assert(keys_of(entries@) =~= Seq::<(Seq<char>, Seq<char>)>::empty());
        }
        ArticleMap { index, entries }
    }

    fn find(&self, article: &ArticleName) -> (r: Option<usize>)
        ensures
            r matches Some(i) ==> key_index(self.entries(), article@) == Some(i as int) && i
                < self.entries().len(),
            r is None ==> key_index(self.entries(), article@) is None,
    {
        proof {
            use_type_invariant(self);
        }
        let key = index_key(article);
        let r = index_of(&self.index, &key);
        proof {
            lemma_key_index(self.entries@, article@);
            match r {
                Some(i) => {
                    assert(keys_of(self.entries@)[i as int] == self.entries@[i as int].0@);
                    lemma_key_index_unique(self.entries@, article@, i as int);
                },
                None => {
                    if let Some(j) = key_index(self.entries@, article@) {
                        assert(keys_of(self.entries@)[j] == article@);
                    }
                },
            }
        }
        r
    }

    /// Whether a value is stored for `article`.
    pub fn has(&self, article: &ArticleName) -> (r: bool)
        ensures
            r == self.value_of(article@) is Some,
    {
        self.find(article).is_some()
    }

    /// The value stored for `article`.
    pub fn get(&self, article: &ArticleName) -> (r: Option<&T>)
        ensures
            r matches Some(v) ==> self.value_of(article@) == Some(*v),
            r is None ==> self.value_of(article@) is None,
    {
        match self.find(article) {
            Some(i) => Some(&self.entries[i].1),
            None => None,
        }
    }

    /// Stores `value` for `article`.  A new article goes last; an article
    /// already present keeps its place, and its previous value is returned.
    pub fn insert(&mut self, article: ArticleName, value: T) -> (r: Option<T>)
        ensures
            r == old(self).value_of(article@),
            match key_index(old(self).entries(), article@) {
                Some(i) => final(self).entries() == old(self).entries().update(i, (article, value)),
                None => final(self).entries() == old(self).entries().push((article, value)),
            },
    {
        let found = self.find(&article);
        let mut map = ArticleMap::new();
        std::mem::swap(&mut map, self);
        proof {
            use_type_invariant(&map);
            lemma_key_index(map.entries@, article@);
        }
        let ArticleMap { mut index, mut entries } = map;
        match found {
            Some(i) => {
                let old_entry = entries.remove(i);
                entries.insert(i, (article, value));
                proof {
                    assert(entries@ =~= old(self).entries@.update(i as int, (article, value)));
                    assert(keys_of(entries@) =~= keys_of(old(self).entries@));
                    assert forall|a: int, b: int| 0 <= a < b < entries@.len() implies #[trigger] entries@[a].0@
                        != #[trigger] entries@[b].0@ by {
                        assert(old(self).entries@[a].0@ != old(self).entries@[b].0@);
                    }
                }
                *self = ArticleMap { index, entries };
                Some(old_entry.1)
            },
            None => {
                proof {
                    if keys_of(entries@).contains(article@) {
                        let j = choose|j: int| 0 <= j < keys_of(entries@).len()
                            && keys_of(entries@)[j] == article@;
                        assert(entries@[j].0@ == article@);
                    }
                }
                let key = index_key(&article);
                add_key(&mut index, key);
                entries.push((article, value));
                proof {
                    assert(keys_of(entries@) =~= keys_of(old(self).entries@).push(article@));
                }
                *self = ArticleMap { index, entries };
                None
            },
        }
    }

    /// How many articles have a value.
    pub fn len(&self) -> (r: usize)
        ensures
            r == self.entries().len(),
    {
        self.entries.len()
    }

    /// The entries, in order of first insertion.
    pub fn as_slice(&self) -> (r: &[(ArticleName, T)])
        ensures
            r@ == self.entries(),
    {
        self.entries.as_slice()
    }
}

impl<T> Default for ArticleMap<T> {
    fn default() -> (r: ArticleMap<T>)
        ensures
            r.entries() == Seq::<(ArticleName, T)>::empty(),
    {
        ArticleMap::new()
    }
}

/// After storing a value for an article, reading that article gives the
/// value, and every other article keeps its value.
pub proof fn lemma_insert_then_get<T>(
    before: ArticleMap<T>,
    after: ArticleMap<T>,
    article: ArticleName,
    value: T,
    other: (Seq<char>, Seq<char>),
)
    requires
        before.valid(),
        match key_index(before.entries(), article@) {
            Some(i) => after.entries() == before.entries().update(i, (article, value)),
            None => after.entries() == before.entries().push((article, value)),
        },
    ensures
        after.value_of(article@) == Some(value),
        other != article@ ==> after.value_of(other) == before.value_of(other),
{
    reveal(ArticleMap::valid);
    lemma_key_index(before.entries(), article@);
    lemma_key_index(before.entries(), other);
    let a = after.entries();
    assert(keys_unique(a)) by {
        assert forall|x: int, y: int| 0 <= x < y < a.len() implies #[trigger] a[x].0@ != #[trigger] a[y].0@ by {
            if x < before.entries().len() && y < before.entries().len() {
                assert(before.entries()[x].0@ != before.entries()[y].0@);
            }
        }
    }
    match key_index(before.entries(), article@) {
        Some(i) => {
            lemma_key_index_unique(a, article@, i);
        },
        None => {
            lemma_key_index_unique(a, article@, a.len() - 1);
        },
    }
    match key_index(before.entries(), other) {
        Some(j) => {
            assert(a[j].0@ == other);
            lemma_key_index_unique(a, other, j);
        },
        None => {
            lemma_key_index(a, other);
        },
    }
}

} // verus!
