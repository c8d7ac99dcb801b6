//! The list of related articles: entries loaded page by page, a verdict
//! filter, the selection, and whether more pages may follow.

use vstd::prelude::*;
use crate::database::Verdict;
use crate::list_state::{ListState, ListStateExt};
use crate::name::{ArticleName, GroupName};
use super::computed_len::{ComputedLen, IPromiseIAmSettingThisFromIterCount};
use super::message::{RelatedMessage, clone_group};

verus! {

/// A related article and the verdict on it.
#[derive(Debug)]
pub struct RelatedArticleEntry {
    pub article_name: ArticleName,
    pub verdict: Option<Verdict>,
}

impl Clone for RelatedArticleEntry {
    fn clone(&self) -> (r: RelatedArticleEntry)
        ensures
            r == *self,
    {
        RelatedArticleEntry { article_name: self.article_name.clone(), verdict: self.verdict }
    }
}

/// Which entries are shown.
#[derive(Debug, Clone, Copy, PartialEq, Eq, Structural)]
pub enum VerdictFilter {
    /// Those with this verdict.
    Eq(Verdict),
    /// Those without a verdict.
    Unset,
    /// All.
    All,
}

pub open spec fn filter_matches(f: VerdictFilter, v: Option<Verdict>) -> bool {
    match f {
        VerdictFilter::Eq(w) => v == Some(w),
        VerdictFilter::Unset => v is None,
        VerdictFilter::All => true,
    }
}

impl VerdictFilter {
    pub fn matches(self, verdict: Option<Verdict>) -> (r: bool)
        ensures
            r == filter_matches(self, verdict),
    {
        match self {
            VerdictFilter::Eq(v) => match verdict {
                Some(ev) => ev == v,
                None => false,
            },
            VerdictFilter::Unset => verdict.is_none(),
            VerdictFilter::All => true,
        }
    }
}

/// Positions, in order, of the entries that the filter lets through.
pub open spec fn match_positions(entries: Seq<RelatedArticleEntry>, f: VerdictFilter) -> Seq<int>
    decreases entries.len(),
{
    if entries.len() == 0 {
        Seq::empty()
    } else {
        let rest = match_positions(entries.drop_last(), f);
        if filter_matches(f, entries.last().verdict) {
            rest.push(entries.len() - 1)
        } else {
            rest
        }
    }
}

/// The entries that the filter lets through, in order.
pub open spec fn shown_entries(entries: Seq<RelatedArticleEntry>, f: VerdictFilter) -> Seq<
    RelatedArticleEntry,
> {
    let pos = match_positions(entries, f);
    Seq::new(pos.len(), |k: int| entries[pos[k]])
}

pub proof fn lemma_match_positions(entries: Seq<RelatedArticleEntry>, f: VerdictFilter)
    ensures
        match_positions(entries, f).len() <= entries.len(),
        forall|k: int|
            0 <= k < match_positions(entries, f).len() ==> 0 <= #[trigger] match_positions(
                entries,
                f,
            )[k] < entries.len() && filter_matches(f, entries[match_positions(entries, f)[k]].verdict),
        forall|k: int, l: int|
            0 <= k < l < match_positions(entries, f).len() ==> #[trigger] match_positions(
                entries,
                f,
            )[k] < #[trigger] match_positions(entries, f)[l],
        forall|i: int|
            0 <= i < entries.len() && filter_matches(f, #[trigger] entries[i].verdict) ==> exists|
                k: int,
            |
                0 <= k < match_positions(entries, f).len() && #[trigger] match_positions(
                    entries,
                    f,
                )[k] == i,
    decreases entries.len(),
{
    if entries.len() > 0 {
        let d = entries.drop_last();
        lemma_match_positions(d, f);
        let rest = match_positions(d, f);
        assert forall|k: int| 0 <= k < rest.len() implies entries[rest[k]] == d[rest[k]] by {}
        assert forall|i: int|
            0 <= i < entries.len() && filter_matches(f, #[trigger] entries[i].verdict) implies exists|
                k: int,
            | 0 <= k < match_positions(entries, f).len() && #[trigger] match_positions(entries, f)[k] == i by {
            if i < entries.len() - 1 {
                assert(d[i] == entries[i]);
                let k = choose|k: int| 0 <= k < rest.len() && rest[k] == i;
                assert(match_positions(entries, f)[k] == i);
            } else {
                assert(match_positions(entries, f)[rest.len() as int] == i);
            }
        }
    }
}

/// Taking a prefix of the entries takes a prefix of the positions.
pub proof fn lemma_match_positions_prefix(entries: Seq<RelatedArticleEntry>, f: VerdictFilter, j: int)
    requires
        0 <= j <= entries.len(),
    ensures
        match_positions(entries.take(j), f).len() <= match_positions(entries, f).len(),
        match_positions(entries, f).take(match_positions(entries.take(j), f).len() as int)
            == match_positions(entries.take(j), f),
        forall|k: int|
            match_positions(entries.take(j), f).len() <= k < match_positions(entries, f).len()
                ==> #[trigger] match_positions(entries, f)[k] >= j,
    decreases entries.len(),
{
    lemma_match_positions(entries, f);
    if j == entries.len() {
        assert(entries.take(j) =~= entries);
    } else {
        let d = entries.drop_last();
        assert(d.take(j) =~= entries.take(j));
        lemma_match_positions_prefix(d, f, j);
        lemma_match_positions(d, f);
    }
}

/// What a list of related articles holds.
pub ghost struct RelatedListView {
    pub state: ListState,
    pub entries: Seq<RelatedArticleEntry>,
    pub len: usize,
    pub group_name: Option<GroupName>,
    pub page: u8,
    pub exhausted: bool,
    pub verdict: VerdictFilter,
    pub needs_reload: bool,
    pub never_loaded_any: bool,
}

impl RelatedListView {
    /// The shown entries.
    pub open spec fn shown(self) -> Seq<RelatedArticleEntry> {
        shown_entries(self.entries, self.verdict)
    }

    /// The counted length, plus one for the "load more" line while more
    /// pages may follow.
    pub open spec fn len_including_virtual(self) -> int {
        self.len + if self.exhausted {
            0int
        } else {
            1int
        }
    }

    /// The selected shown entry.
    pub open spec fn selected_entry(self) -> Option<RelatedArticleEntry> {
        match self.state.selected {
            Some(i) => if i < self.shown().len() {
                Some(self.shown()[i as int])
            } else {
                None
            },
            None => None,
        }
    }

    /// Whether the "load more" line is selected.
    pub open spec fn load_more_selected(self) -> bool {
        !self.exhausted && self.state.selected == Some(self.len)
    }

    /// The request for the next page.
    pub open spec fn load_request(self) -> RelatedMessage {
        RelatedMessage::LoadRelated { group_name: self.group_name, page: self.page }
    }

    /// The counted length is at most the number of entries, which leaves
    /// room for the "load more" line.
    pub open spec fn wf(self) -> bool {
        self.len <= self.entries.len() < usize::MAX
    }

    pub open spec fn with_state(self, state: ListState) -> RelatedListView {
        RelatedListView { state, ..self }
    }

    /// Selects `index` as `ListState::select` does.
    pub open spec fn with_selection(self, index: Option<usize>) -> RelatedListView {
        self.with_state(
            ListState {
                selected: index,
                offset: if index is None {
                    0
                } else {
                    self.state.offset
                },
            },
        )
    }

    /// After moving the selection up, wrapping to the last line.
    pub open spec fn prev_or_last(self) -> RelatedListView {
        self.with_selection(
            Some(
                match self.state.selected {
                    Some(s) => if s == 0 {
                        usize::MAX
                    } else {
                        (s - 1) as usize
                    },
                    None => usize::MAX,
                },
            ),
        )
    }

    /// After moving the selection down, wrapping to the first line.
    pub open spec fn next_or_first(self) -> RelatedListView {
        self.with_selection(
            Some(
                match self.state.selected {
                    Some(s) => if s >= self.len_including_virtual() - 1 {
                        0usize
                    } else {
                        (s + 1) as usize
                    },
                    None => 0usize,
                },
            ),
        )
    }

    /// After setting the verdict of the selected shown entry.
    pub open spec fn with_selected_verdict(self, verdict: Option<Verdict>) -> RelatedListView {
        match self.state.selected {
            Some(i) => if i < match_positions(self.entries, self.verdict).len() {
                let p = match_positions(self.entries, self.verdict)[i as int];
                RelatedListView {
                    entries: self.entries.update(
                        p,
                        RelatedArticleEntry { article_name: self.entries[p].article_name, verdict },
                    ),
                    ..self
                }
            } else {
                self
            },
            None => self,
        }
    }

    /// After changing the verdict filter.
    pub open spec fn with_verdict_filter(self, verdict: VerdictFilter) -> RelatedListView {
        RelatedListView {
            verdict,
            state: ListState { selected: None, offset: 0 },
            len: match_positions(self.entries, verdict).len() as usize,
            ..self
        }
    }

    /// After changing the group.
    pub open spec fn with_group(self, group_name: Option<GroupName>) -> RelatedListView {
        RelatedListView {
            group_name: group_name,
            page: 1,
            exhausted: false,
            needs_reload: true,
            state: ListState { selected: None, offset: 0 },
            ..self
        }
    }

    /// After taking in a loaded page.
    pub open spec fn with_loaded(self, page: Seq<RelatedArticleEntry>) -> RelatedListView {
        if self.needs_reload {
            RelatedListView {
                entries: page,
                needs_reload: false,
                len: match_positions(page, self.verdict).len() as usize,
                never_loaded_any: false,
                ..self
            }
        } else {
            RelatedListView {
                entries: self.entries + page,
                exhausted: page.len() == 0,
                page: (self.page + 1) as u8,
                len: match_positions(self.entries + page, self.verdict).len() as usize,
                never_loaded_any: false,
                ..self
            }
        }
    }
}

/// The shown entries are exactly the entries that the filter lets through:
/// each shown entry passes it, and each entry that passes it is shown.
pub proof fn lemma_shown_are_the_matching(entries: Seq<RelatedArticleEntry>, f: VerdictFilter)
    ensures
        forall|k: int|
            0 <= k < shown_entries(entries, f).len() ==> filter_matches(
                f,
                #[trigger] shown_entries(entries, f)[k].verdict,
            ),
        forall|i: int|
            0 <= i < entries.len() && filter_matches(f, #[trigger] entries[i].verdict) ==> exists|
                k: int,
            | 0 <= k < shown_entries(entries, f).len() && shown_entries(entries, f)[k] == entries[i],
{
    lemma_match_positions(entries, f);
    let pos = match_positions(entries, f);
    assert forall|i: int|
        0 <= i < entries.len() && filter_matches(f, #[trigger] entries[i].verdict) implies exists|
            k: int,
        | 0 <= k < shown_entries(entries, f).len() && shown_entries(entries, f)[k] == entries[i] by {
        let k = choose|k: int| 0 <= k < pos.len() && #[trigger] pos[k] == i;
        assert(shown_entries(entries, f)[k] == entries[pos[k]]);
    }
}

/// The filter that shows all entries lets every entry through, in order.
pub proof fn lemma_all_shows_everything(entries: Seq<RelatedArticleEntry>)
    ensures
        shown_entries(entries, VerdictFilter::All) == entries,
    decreases entries.len(),
{
    if entries.len() > 0 {
        lemma_all_shows_everything(entries.drop_last());
        lemma_match_positions(entries, VerdictFilter::All);
        lemma_all_positions(entries);
    }
    assert(shown_entries(entries, VerdictFilter::All) =~= entries);
}

/// With the filter that shows all, the positions are all of them.
proof fn lemma_all_positions(entries: Seq<RelatedArticleEntry>)
    ensures
        match_positions(entries, VerdictFilter::All) == Seq::new(entries.len(), |i: int| i),
    decreases entries.len(),
{
    if entries.len() > 0 {
        lemma_all_positions(entries.drop_last());
    }
    assert(match_positions(entries, VerdictFilter::All) =~= Seq::new(entries.len(), |i: int| i));
}

/// After a change of group, the page that arrives replaces the entries, the
/// counted length is the number of shown entries, the list counts as loaded,
/// and the next page that arrives is appended.  (A page is a vector, so its
/// length fits in `usize`.)
pub proof fn lemma_loaded_after_group_change(
    v: RelatedListView,
    group: Option<GroupName>,
    first: Seq<RelatedArticleEntry>,
    second: Seq<RelatedArticleEntry>,
)
    requires
        first.len() <= usize::MAX,
    ensures
        ({
            let w = v.with_group(group).with_loaded(first);
            &&& w.entries == first
            &&& w.len == w.shown().len()
            &&& !w.never_loaded_any
            &&& w.with_loaded(second).entries == first + second
        }),
{
    lemma_match_positions(first, v.verdict);
}

/// After the group changes, the request asks for page one of the new group;
/// the entries stay as they were, nothing is selected and more pages may
/// follow, until the page that arrives replaces the entries.
pub proof fn lemma_group_change_reloads(
    v: RelatedListView,
    group: Option<GroupName>,
    page: Seq<RelatedArticleEntry>,
)
    ensures
        v.with_group(group).entries == v.entries,
        v.with_group(group).group_name == group,
        v.with_group(group).state.selected is None,
        !v.with_group(group).exhausted,
        v.with_group(group).with_loaded(page).entries == page,
        v.with_group(group).load_request() == (RelatedMessage::LoadRelated {
            group_name: group,
            page: 1,
        }),
        !v.with_group(group).with_loaded(page).needs_reload,
{
}

/// Each verdict filter lets an entry through exactly when its verdict is
/// the one asked for: `Eq(w)` when the entry's verdict is `w`, `Unset` when
/// it has none, `All` always.  So under `Unset` the shown entries are those
/// without a verdict.
pub proof fn lemma_filter_lets_through(
    entries: Seq<RelatedArticleEntry>,
    v: Option<Verdict>,
    w: Verdict,
)
    ensures
        filter_matches(VerdictFilter::Eq(w), v) <==> v == Some(w),
        filter_matches(VerdictFilter::Unset, v) <==> v is None,
        filter_matches(VerdictFilter::All, v),
        forall|k: int|
            0 <= k < shown_entries(entries, VerdictFilter::Unset).len() ==> (#[trigger] shown_entries(
                entries,
                VerdictFilter::Unset,
            )[k]).verdict is None,
        forall|i: int|
            0 <= i < entries.len() && (#[trigger] entries[i]).verdict is None ==> exists|k: int|
                0 <= k < shown_entries(entries, VerdictFilter::Unset).len() && shown_entries(
                    entries,
                    VerdictFilter::Unset,
                )[k] == entries[i],
{
    lemma_shown_are_the_matching(entries, VerdictFilter::Unset);
    assert forall|i: int|
        0 <= i < entries.len() && (#[trigger] entries[i]).verdict is None implies exists|k: int|
            0 <= k < shown_entries(entries, VerdictFilter::Unset).len() && shown_entries(
                entries,
                VerdictFilter::Unset,
            )[k] == entries[i] by {
        assert(filter_matches(VerdictFilter::Unset, entries[i].verdict));
    }
}

/// Setting the verdict of the selection changes exactly the selected shown
/// entry: the entry at the position `p` that passes the filter and has as
/// many shown entries before it as the selection's index.  It keeps its
/// article and takes the new verdict; every other entry stays as it was.
/// With no shown entry selected, nothing changes.
pub proof fn lemma_set_verdict_changes_the_selected(v: RelatedListView, verdict: Option<Verdict>)
    ensures
        match v.selected_entry() {
            Some(e) => exists|p: int|
                0 <= p < v.entries.len() && v.entries[p] == e && filter_matches(
                    v.verdict,
                    v.entries[p].verdict,
                ) && v.state.selected == Some(
                    shown_entries(v.entries.take(p), v.verdict).len() as usize,
                ) && v.with_selected_verdict(verdict).entries == v.entries.update(
                    p,
                    RelatedArticleEntry { article_name: e.article_name, verdict },
                ),
            None => v.with_selected_verdict(verdict).entries == v.entries,
        },
        v.with_selected_verdict(verdict).verdict == v.verdict,
        v.with_selected_verdict(verdict).state == v.state,
{
    let f = v.verdict;
    let mp = match_positions(v.entries, f);
    lemma_match_positions(v.entries, f);
    if let Some(i) = v.state.selected {
        if i < mp.len() {
            let p = mp[i as int];
            lemma_match_positions_prefix(v.entries, f, p);
            let c = match_positions(v.entries.take(p), f).len();
            lemma_match_positions(v.entries.take(p), f);
            if i < c {
                assert(mp[i as int] == match_positions(v.entries.take(p), f)[i as int]);
            }
            if c < i {
                assert(mp[c as int] < mp[i as int]);
            }
            assert(c == i);
            assert(v.shown()[i as int] == v.entries[p]);
            assert(v.entries[p] == v.entries[p]);
        }
    }
}

/// The list of related articles.
pub struct RelatedArticleList {
    state: ListState,
    entries: Vec<RelatedArticleEntry>,
    len: ComputedLen,
    group_name: Option<GroupName>,
    page: u8,
    exhausted: bool,
    verdict: VerdictFilter,
    needs_reload: bool,
    never_loaded_any: bool,
}

impl View for RelatedArticleList {
    type V = RelatedListView;

    closed spec fn view(&self) -> RelatedListView {
        RelatedListView {
            state: self.state,
            entries: self.entries@,
            len: self.len@,
            group_name: self.group_name,
            page: self.page,
            exhausted: self.exhausted,
            verdict: self.verdict,
            needs_reload: self.needs_reload,
            never_loaded_any: self.never_loaded_any,
        }
    }
}

impl RelatedArticleList {
    /// What a new list holds.
    pub open spec fn new_view() -> RelatedListView {
        RelatedListView {
            state: ListState { offset: 0, selected: None },
            entries: Seq::empty(),
            len: 0,
            group_name: None,
            page: 1,
            exhausted: false,
            verdict: VerdictFilter::All,
            needs_reload: false,
            never_loaded_any: true,
        }
    }

    /// An empty list at page one, showing all entries, never loaded.
    pub fn new() -> (r: RelatedArticleList)
        ensures
            r@ == (RelatedListView {
                state: ListState { offset: 0, selected: None },
                entries: Seq::empty(),
                len: 0,
                group_name: None,
                page: 1,
                exhausted: false,
                verdict: VerdictFilter::All,
                needs_reload: false,
                never_loaded_any: true,
            }),
            r@.wf(),
    {
        RelatedArticleList {
            state: ListState::new(),
            entries: Vec::new(),
            len: ComputedLen::new(),
            group_name: None,
            page: 1,
            exhausted: false,
            verdict: VerdictFilter::All,
            needs_reload: false,
            never_loaded_any: true,
        }
    }

    /// Position in the entries of the `n`-th shown entry.
    fn nth_shown(&self, n: usize) -> (r: Option<usize>)
        ensures
            n < match_positions(self@.entries, self@.verdict).len() ==> (r matches Some(p) && p as int
                == match_positions(self@.entries, self@.verdict)[n as int]),
            n >= match_positions(self@.entries, self@.verdict).len() ==> r is None,
    {
        let ghost e = self.entries@;
        let ghost f = self.verdict;
        let mut count: usize = 0;
        let mut i: usize = 0;
        proof {
            lemma_match_positions(e, f);
        }
        while i < self.entries.len()
            invariant
                e == self.entries@,
                f == self.verdict,
                i <= e.len(),
                count == match_positions(e.take(i as int), f).len(),
                count <= n,
            decreases e.len() - i,
        {
            proof {
                assert(e.take(i + 1).drop_last() =~= e.take(i as int));
                assert(e.take(i + 1).last() == e[i as int]);
            }
            if self.verdict.matches(self.entries[i].verdict) {
                if count == n {
                    proof {
                        lemma_match_positions_prefix(e, f, i + 1);
                        assert(match_positions(e.take(i + 1), f)[n as int] == i);
                    }
                    return Some(i);
                }
                count = count + 1;
            }
            i = i + 1;
        }
        proof {
            assert(e.take(e.len() as int) =~= e);
        }
        None
    }

    /// The shown entries, in order.
    pub fn iter(&self) -> (r: Vec<&RelatedArticleEntry>)
        ensures
            r@.len() == self@.shown().len(),
            forall|k: int| 0 <= k < r@.len() ==> *r@[k] == self@.shown()[k],
    {
        let ghost e = self.entries@;
        let ghost f = self.verdict;
        let mut out: Vec<&RelatedArticleEntry> = Vec::new();
        let mut i: usize = 0;
        while i < self.entries.len()
            invariant
                e == self.entries@,
                f == self.verdict,
                i <= e.len(),
                out@.len() == match_positions(e.take(i as int), f).len(),
                forall|k: int|
                    0 <= k < out@.len() ==> *out@[k] == e[match_positions(e.take(i as int), f)[k]],
            decreases e.len() - i,
        {
            proof {
                assert(e.take(i + 1).drop_last() =~= e.take(i as int));
                assert(e.take(i + 1).last() == e[i as int]);
            }
            if self.verdict.matches(self.entries[i].verdict) {
                out.push(&self.entries[i]);
            }
            i = i + 1;
        }
        proof {
            assert(e.take(e.len() as int) =~= e);
        }
        out
    }

    /// The shown entries, each with whether it is the selected one.
    pub fn iter_with_selected(&self) -> (r: Vec<(&RelatedArticleEntry, bool)>)
        ensures
            r@.len() == self@.shown().len(),
            forall|k: int|
                0 <= k < r@.len() ==> *r@[k].0 == self@.shown()[k] && r@[k].1 == (
                self@.state.selected == Some(k as usize)),
    {
        let shown = self.iter();
        let selected = self.state.selected();
        let mut out: Vec<(&RelatedArticleEntry, bool)> = Vec::new();
        let mut i: usize = 0;
        while i < shown.len()
            invariant
                i <= shown@.len(),
                shown@.len() == self@.shown().len(),
                forall|k: int| 0 <= k < shown@.len() ==> *shown@[k] == self@.shown()[k],
                selected == self@.state.selected,
                out@.len() == i,
                forall|k: int|
                    #![trigger out@[k]]
                    0 <= k < i ==> *out@[k].0 == self@.shown()[k] && out@[k].1 == (selected == Some(
                        k as usize,
                    )),
            decreases shown@.len() - i,
        {
            let is_selected = match selected {
                Some(s) => s == i,
                None => false,
            };
            let e: &RelatedArticleEntry = shown[i];
            assert(*e == self@.shown()[i as int]);
            let ghost before = out@;
            out.push((e, is_selected));
            proof {
                assert(out@ == before.push((e, is_selected)));
                assert forall|k: int| #![trigger out@[k]] 0 <= k < i + 1 implies *out@[k].0 == self@.shown()[k] && out@[k].1
                    == (selected == Some(k as usize)) by {
                    if k == i {
                        assert(out@[k].1 == is_selected);
                        assert(is_selected == (selected == Some(i)));
                        assert(*out@[k].0 == *e);
                        assert(*out@[k].0 == self@.shown()[k]);
                        assert(out@[k].1 == (selected == Some(k as usize)));
                    } else {
                        assert(out@[k] == before[k]);
                        assert(*before[k].0 == self@.shown()[k]);
                        assert(before[k].1 == (selected == Some(k as usize)));
                    }
                }
            }
            i = i + 1;
        }
        out
    }

    /// The number of loaded entries, shown or not.
    pub fn entries_len(&self) -> (r: usize)
        ensures
            r == self@.entries.len(),
    {
        self.entries.len()
    }

    /// Whether the next page replaces the entries.
    pub fn needs_reload(&self) -> (r: bool)
        ensures
            r == self@.needs_reload,
    {
        self.needs_reload
    }

    /// The number of the next page to load.
    pub fn page(&self) -> (r: u8)
        ensures
            r == self@.page,
    {
        self.page
    }

    /// The counted number of shown entries.
    pub fn len(&self) -> (r: usize)
        ensures
            r == self@.len,
    {
        self.len.into_inner()
    }

    /// The counted length, plus one for the "load more" line while more
    /// pages may follow.
    pub fn len_including_virtual(&self) -> (r: usize)
        requires
            self@.wf(),
        ensures
            r == self@.len_including_virtual(),
    {
        self.len() + if self.exhausted {
            0
        } else {
            1
        }
    }

    /// Whether the last load found no more entries.
    pub fn exhausted(&self) -> (r: bool)
        ensures
            r == self@.exhausted,
    {
        self.exhausted
    }

    /// The selected shown entry.
    pub fn selected(&self) -> (r: Option<&RelatedArticleEntry>)
        ensures
            r matches Some(e) ==> self@.selected_entry() == Some(*e),
            r is None ==> self@.selected_entry() is None,
    {
        proof {
            lemma_match_positions(self@.entries, self@.verdict);
        }
        match self.state.selected() {
            Some(i) => match self.nth_shown(i) {
                Some(p) => {
                    assert(self@.entries == self.entries@);
                    assert(p as int == match_positions(self@.entries, self@.verdict)[i as int]);
                    assert(i < self@.shown().len());
                    assert(self@.shown()[i as int] == self.entries@[p as int]);
                    Some(&self.entries[p])
                },
                None => None,
            },
            None => None,
        }
    }

    /// Sets the verdict of the selected shown entry, if there is one.  The
    /// counted length is left as it was.
    pub fn set_selected_verdict(&mut self, verdict: Option<Verdict>)
        requires
            old(self)@.wf(),
        ensures
            final(self)@ == old(self)@.with_selected_verdict(verdict),
            final(self)@.wf(),
    {
        proof {
            lemma_match_positions(self@.entries, self@.verdict);
        }
        if let Some(i) = self.state.selected() {
            if let Some(p) = self.nth_shown(i) {
                let mut entries: Vec<RelatedArticleEntry> = Vec::new();
                std::mem::swap(&mut entries, &mut self.entries);
                let old_entry = entries.remove(p);
                entries.insert(p, RelatedArticleEntry { article_name: old_entry.article_name, verdict });
                self.entries = entries;
                proof {
                    assert(i < match_positions(old(self)@.entries, old(self)@.verdict).len());
                    assert(self.entries@ =~= old(self)@.entries.update(
                        p as int,
                        RelatedArticleEntry {
                            article_name: old(self)@.entries[p as int].article_name,
                            verdict,
                        },
                    ));
                }
            }
        }
    }

    /// The selected position, among the shown entries and the "load more" line.
    pub fn selected_idx(&self) -> (r: Option<usize>)
        ensures
            r == self@.state.selected,
    {
        self.state.selected()
    }

    /// Whether the "load more" line is selected.
    pub fn selected_load_more(&self) -> (r: bool)
        ensures
            r == self@.load_more_selected(),
    {
        !self.exhausted && match self.state.selected() {
            Some(i) => i == self.len(),
            None => false,
        }
    }

    /// The selection state, for drawing and for moving by pages.
    pub fn state(&mut self) -> (r: &mut ListState)
        ensures
            *r == old(self)@.state,
            final(self)@ == old(self)@.with_state(*final(r)),
    {
        &mut self.state
    }

    pub fn select_first(&mut self)
        ensures
            final(self)@ == old(self)@.with_selection(Some(0usize)),
    {
        self.state.select_first();
    }

    pub fn select_last(&mut self)
        ensures
            final(self)@ == old(self)@.with_selection(Some(usize::MAX)),
    {
        self.state.select_last();
    }

    /// Selects the previous line, or the last from the first or from none.
    pub fn select_prev_or_last(&mut self)
        ensures
            final(self)@ == old(self)@.prev_or_last(),
    {
        self.state.select_prev_or_last();
    }

    /// Selects the next line, or the first from the last line (the "load
    /// more" line counts while more pages may follow) or from none.
    pub fn select_next_or_first(&mut self)
        requires
            old(self)@.wf(),
            old(self)@.state.selected is Some ==> old(self)@.len_including_virtual() > 0,
        ensures
            final(self)@ == old(self)@.next_or_first(),
    {
        let count = self.len_including_virtual();
        self.state.select_next_or_first(count);
    }

    /// The group that the search is restricted to.
    pub fn group_name(&self) -> (r: Option<&GroupName>)
        ensures
            r matches Some(g) ==> self@.group_name == Some(*g),
            r is None ==> self@.group_name is None,
    {
        match &self.group_name {
            Some(g) => Some(g),
            None => None,
        }
    }

    /// The verdict filter.
    pub fn verdict(&self) -> (r: VerdictFilter)
        ensures
            r == self@.verdict,
    {
        self.verdict
    }

    /// Whether no page has been loaded yet.
    pub fn never_loaded_any(&self) -> (r: bool)
        ensures
            r == self@.never_loaded_any,
    {
        self.never_loaded_any
    }

    /// The request for the next page.
    pub fn load(&self) -> (r: RelatedMessage)
        ensures
            r == self@.load_request(),
    {
        RelatedMessage::LoadRelated { group_name: clone_group(&self.group_name), page: self.page }
    }

    fn recalc_len(&mut self)
        ensures
            final(self)@ == (RelatedListView {
                len: match_positions(old(self)@.entries, old(self)@.verdict).len() as usize,
                ..old(self)@
            }),
            match_positions(old(self)@.entries, old(self)@.verdict).len() <= old(self)@.entries.len(),
    {
        proof {
            lemma_match_positions(self@.entries, self@.verdict);
        }
        let shown = self.iter();
        let count = shown.len();
        let promise = IPromiseIAmSettingThisFromIterCount;
        self.len.set(count, promise);
    }

    /// Takes in a loaded page.  After a change of group the page replaces
    /// the entries; otherwise it is appended, an empty page marks the list
    /// exhausted, and the next load asks for the following page.
    pub fn loaded(&mut self, entries: Vec<RelatedArticleEntry>)
        requires
            old(self)@.wf(),
            old(self)@.needs_reload ==> entries@.len() < usize::MAX,
            !old(self)@.needs_reload ==> old(self)@.entries.len() + entries@.len() < usize::MAX
                && old(self)@.page < u8::MAX,
        ensures
            final(self)@ == old(self)@.with_loaded(entries@),
            final(self)@.wf(),
    {
        let mut entries = entries;
        if self.needs_reload {
            self.entries = entries;
            self.needs_reload = false;
        } else {
            self.exhausted = entries.len() == 0;
            self.entries.append(&mut entries);
            self.page = self.page + 1;
        }
        self.recalc_len();
        self.never_loaded_any = false;
    }

    /// Restricts the search to a group, or lifts the restriction: back to
    /// page one, the next page replaces the entries, nothing selected.
    /// Returns the request for that page.
    pub fn set_group_name(&mut self, group_name: Option<GroupName>) -> (r: RelatedMessage)
        ensures
            final(self)@ == old(self)@.with_group(group_name),
            r == final(self)@.load_request(),
    {
        self.group_name = group_name;
        self.page = 1;
        self.exhausted = false;
        self.needs_reload = true;
        self.state.select(None);
        self.load()
    }

    /// Shows only the entries that `verdict` lets through; clears the
    /// selection and counts the shown entries.
    pub fn set_verdict(&mut self, verdict: VerdictFilter)
        requires
            old(self)@.wf(),
        ensures
            final(self)@ == old(self)@.with_verdict_filter(verdict),
            final(self)@.wf(),
    {
        self.verdict = verdict;
        self.state.select(None);
        self.recalc_len();
    }
}

} // verus!
