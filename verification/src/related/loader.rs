//! Loading related articles page after page in the background: which page
//! to ask for next, and what to do with a page that arrives.

use vstd::prelude::*;
use crate::name::GroupName;
use super::list::RelatedArticleEntry;
use super::message::clone_group;

verus! {

/// What starts a load: the group to search in, and the page.
pub type LoaderRequest = (Option<GroupName>, u8);

/// The pages loaded so far, and what to load next.
pub struct RelatedLoader {
    entries: Vec<RelatedArticleEntry>,
    next_page: Option<u8>,
    filter_group: Option<GroupName>,
    filter_just_changed: bool,
}

/// What a loader holds.
pub ghost struct RelatedLoaderView {
    pub entries: Seq<RelatedArticleEntry>,
    pub next_page: Option<u8>,
    pub filter_group: Option<GroupName>,
    pub filter_just_changed: bool,
}

impl View for RelatedLoader {
    type V = RelatedLoaderView;

    closed spec fn view(&self) -> RelatedLoaderView {
        RelatedLoaderView {
            entries: self.entries@,
            next_page: self.next_page,
            filter_group: self.filter_group,
            filter_just_changed: self.filter_just_changed,
        }
    }
}

/// The load to start when the loader is asked, if any: with no entries and
/// no load running, the next page of the current group, while there is one.
pub open spec fn request_spec(v: RelatedLoaderView, running: bool) -> Option<(Option<GroupName>, u8)> {
    if v.entries.len() == 0 && !running {
        match v.next_page {
            Some(page) => Some((v.filter_group, page)),
            None => None,
        }
    } else {
        None
    }
}

/// Whether a page can be taken in within the machine's limits: room beside
/// the entries when it is appended, and a number for the page after.
pub open spec fn take_ok(v: RelatedLoaderView, page: Seq<RelatedArticleEntry>) -> bool {
    page.len() > 0 ==> ((!v.filter_just_changed ==> v.entries.len() + page.len() <= usize::MAX)
        && match v.next_page {
        Some(p) => p < u8::MAX,
        None => true,
    })
}

/// The loader after a page arrives: an empty page ends the loading; after a
/// change of group the first page replaces the entries, any other page is
/// appended; then the next page number is the following one.
pub open spec fn taken(v: RelatedLoaderView, page: Seq<RelatedArticleEntry>) -> RelatedLoaderView {
    if page.len() == 0 {
        RelatedLoaderView { next_page: None, ..v }
    } else {
        RelatedLoaderView {
            entries: if v.filter_just_changed {
                page
            } else {
                v.entries + page
            },
            filter_just_changed: false,
            next_page: match v.next_page {
                Some(p) => Some((p + 1) as u8),
                None => None,
            },
            ..v
        }
    }
}

impl RelatedLoader {
    /// Nothing loaded, page one next, all groups.
    pub fn new() -> (r: RelatedLoader)
        ensures
            r@ == (RelatedLoaderView {
                entries: Seq::empty(),
                next_page: Some(1u8),
                filter_group: None,
                filter_just_changed: false,
            }),
    {
        RelatedLoader {
            entries: Vec::new(),
            next_page: Some(1),
            filter_group: None,
            filter_just_changed: false,
        }
    }

    /// The first load: page one of all groups.
    pub fn on_start(&self) -> (r: LoaderRequest)
        ensures
            r == (None::<GroupName>, 1u8),
    {
        (None, 1)
    }

    /// The load to start now, given whether one is running.
    pub fn request(&self, running: bool) -> (r: Option<LoaderRequest>)
        ensures
            r == request_spec(self@, running),
    {
        if self.entries.len() == 0 && !running {
            match self.next_page {
                Some(page) => Some((clone_group(&self.filter_group), page)),
                None => None,
            }
        } else {
            None
        }
    }

    /// Whether `page` can be taken in.
    pub fn can_take(&self, page: &Vec<RelatedArticleEntry>) -> (r: bool)
        ensures
            r == take_ok(self@, page@),
    {
        if page.len() == 0 {
            true
        } else {
            let room = self.filter_just_changed || page.len() <= usize::MAX - self.entries.len();
            match self.next_page {
                Some(p) => room && p < u8::MAX,
                None => room,
            }
        }
    }

    /// Takes in a page that arrived.
    pub fn take_output(&mut self, page: Vec<RelatedArticleEntry>)
        requires
            take_ok(old(self)@, page@),
        ensures
            final(self)@ == taken(old(self)@, page@),
    {
        if page.len() == 0 {
            self.next_page = None;
        } else {
            let mut page = page;
            if self.filter_just_changed {
                self.entries = page;
                self.filter_just_changed = false;
            } else {
                self.entries.append(&mut page);
            }
            if let Some(p) = self.next_page {
                self.next_page = Some(p + 1);
            }
        }
    }

    /// One step: the load to start, if any, then the page that arrived, if
    /// any, taken in.
    pub fn tick(&mut self, running: bool, output: Option<Vec<RelatedArticleEntry>>) -> (r: Option<
        LoaderRequest,
    >)
        requires
            output matches Some(page) ==> take_ok(old(self)@, page@),
        ensures
            r == request_spec(old(self)@, running),
            final(self)@ == match output {
                Some(page) => taken(old(self)@, page@),
                None => old(self)@,
            },
    {
        let r = self.request(running);
        if let Some(page) = output {
            self.take_output(page);
        }
        r
    }

    /// The loaded entries.
    pub fn entries(&self) -> (r: &[RelatedArticleEntry])
        ensures
            r@ == self@.entries,
    {
        self.entries.as_slice()
    }

    /// The loaded entries, to change verdicts in.
    pub fn entries_mut(&mut self) -> (r: &mut Vec<RelatedArticleEntry>)
        ensures
            r@ == old(self)@.entries,
            final(self)@ == (RelatedLoaderView { entries: final(r)@, ..old(self)@ }),
    {
        &mut self.entries
    }

    /// The group searched in.
    pub fn filter_group(&self) -> (r: Option<&GroupName>)
        ensures
            r matches Some(g) ==> self@.filter_group == Some(*g),
            r is None ==> self@.filter_group is None,
    {
        match &self.filter_group {
            Some(g) => Some(g),
            None => None,
        }
    }

    /// Searches in another group from page one; the first page that arrives
    /// replaces the entries.  Returns the load to start.
    pub fn set_filter_group(&mut self, filter_group: Option<GroupName>) -> (r: LoaderRequest)
        ensures
            final(self)@ == (RelatedLoaderView {
                filter_group,
                filter_just_changed: true,
                next_page: Some(1u8),
                ..old(self)@
            }),
            r == (filter_group, 1u8),
    {
        self.filter_group = clone_group(&filter_group);
        self.filter_just_changed = true;
        self.next_page = Some(1);
        (filter_group, 1)
    }
}

/// After the group changes, the first page that arrives replaces the
/// entries, and loading goes on from page two.
pub proof fn lemma_group_change_replaces(
    v: RelatedLoaderView,
    group: Option<GroupName>,
    page: Seq<RelatedArticleEntry>,
)
    requires
        page.len() > 0,
    ensures
        ({
            let w = taken(
                RelatedLoaderView {
                    filter_group: group,
                    filter_just_changed: true,
                    next_page: Some(1u8),
                    ..v
                },
                page,
            );
            &&& w.entries == page
            &&& w.next_page == Some(2u8)
            &&& !w.filter_just_changed
            &&& w.filter_group == group
        }),
{
}

/// A page with entries replaces the entries when the group changed since
/// the last such page, and is appended to them otherwise; the group searched
/// in stays, and the next page appends again.
pub proof fn lemma_page_replaces_or_appends(v: RelatedLoaderView, page: Seq<RelatedArticleEntry>)
    requires
        page.len() > 0,
    ensures
        taken(v, page).entries == if v.filter_just_changed {
            page
        } else {
            v.entries + page
        },
        taken(v, page).filter_group == v.filter_group,
        !taken(v, page).filter_just_changed,
{
}

/// Once an empty page arrives, no further load is started.
pub proof fn lemma_empty_page_stops(v: RelatedLoaderView, running: bool)
    ensures
        request_spec(taken(v, Seq::empty()), running) is None,
{
}

} // verus!
