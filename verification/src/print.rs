//! Printing a list of articles grouped by their group, with a count at the
//! end.

use vstd::prelude::*;
use crate::crawl::CrawlError;
use crate::data::{ArticleData, TropeDataSingle};
use crate::data::styled::{StyledText, TextStyle, pieces, styled};
use crate::data::trope::{article_link, entry_shown, text_view};
use crate::name::{ArticleName, GroupName};
use crate::text::{decimal, decimal_string, push_str, string_from};

verus! {

broadcast use vstd::string::group_string_axioms;

/// An entry of a printed list: the group it is listed under and how it is
/// shown.
pub trait PrintArticleEntry {
    spec fn group_of(&self) -> Seq<char>;

    spec fn shown(&self) -> Seq<(Seq<char>, TextStyle)>;

    fn group(&self) -> (r: &GroupName)
        ensures
            r@ == self.group_of(),
    ;

    fn display(&self) -> (r: Vec<StyledText>)
        ensures
            pieces(r@) == self.shown(),
    ;
}

impl PrintArticleEntry for ArticleName {
    open spec fn group_of(&self) -> Seq<char> {
        self.group@
    }

    /// The link to the article.
    open spec fn shown(&self) -> Seq<(Seq<char>, TextStyle)> {
        seq![(article_link(self@), TextStyle::Plain)]
    }

    fn group(&self) -> (r: &GroupName) {
        &self.group
    }

    fn display(&self) -> (r: Vec<StyledText>) {
        let r = vec![styled(self.display_link(), TextStyle::Plain)];
        assert(pieces(r@) =~= self.shown());
        r
    }
}

/// An article and what was read of one trope on it, or the failure to read
/// it.
#[derive(Debug)]
pub struct ArticleAndTropeDesc<'a> {
    name: &'a ArticleName,
    data: Result<ArticleData<TropeDataSingle>, CrawlError>,
}

impl<'a> ArticleAndTropeDesc<'a> {
    pub fn new(name: &'a ArticleName, data: Result<ArticleData<TropeDataSingle>, CrawlError>) -> (r:
        Self)
        ensures
            r.name() == *name,
            r.data() == data,
    {
        ArticleAndTropeDesc { name, data }
    }

    pub closed spec fn name(&self) -> ArticleName {
        *self.name
    }

    pub closed spec fn data(&self) -> Result<ArticleData<TropeDataSingle>, CrawlError> {
        self.data
    }
}

impl PrintArticleEntry for ArticleAndTropeDesc<'_> {
    open spec fn group_of(&self) -> Seq<char> {
        self.name().group@
    }

    /// The link to the article on a line, then the trope's text, or a red
    /// mark when reading failed, on the next.
    open spec fn shown(&self) -> Seq<(Seq<char>, TextStyle)> {
        seq![
            (article_link(self.name()@) + "\n"@, TextStyle::Plain),
            match self.data() {
                Ok(d) => entry_shown(text_view(d.tropes.text)),
                Err(_) => ("(load failed)"@, TextStyle::OnRed),
            },
            ("\n"@, TextStyle::Plain),
        ]
    }

    fn group(&self) -> (r: &GroupName) {
        &self.name.group
    }

    fn display(&self) -> (r: Vec<StyledText>) {
        let mut head = self.name.display_link();
        push_str(&mut head, "\n");
        let body = match &self.data {
            Ok(d) => d.tropes.display_text(),
            Err(_) => styled(string_from("(load failed)"), TextStyle::OnRed),
        };
        let r = vec![styled(head, TextStyle::Plain), body, styled(string_from("\n"), TextStyle::Plain)];
        assert(pieces(r@) =~= self.shown());
        r
    }
}

/// The group of the last printed entry, and how many were printed.
pub struct PrinterState {
    group: Option<GroupName>,
    count: usize,
}

pub open spec fn group_view(g: Option<GroupName>) -> Option<Seq<char>> {
    match g {
        Some(g) => Some(g@),
        None => None,
    }
}

/// What printing an entry writes: its group's name between blank lines
/// when the group changes, then the entry indented on its own line.
pub open spec fn advance_text(
    last_group: Option<Seq<char>>,
    group: Seq<char>,
    shown: Seq<(Seq<char>, TextStyle)>,
) -> Seq<(Seq<char>, TextStyle)> {
    (if last_group == Some(group) {
        Seq::empty()
    } else {
        seq![("\n"@ + group + "\n\n"@, TextStyle::Plain)]
    }) + seq![("\t"@, TextStyle::Plain)] + shown + seq![("\n"@, TextStyle::Plain)]
}

/// What finishing writes: a blank line and the count, and how many were
/// left out when the length before filtering is known.
pub open spec fn finish_text(count: nat, unfiltered_len: Option<usize>) -> Seq<char> {
    "\n("@ + decimal(count) + " results)\n"@ + match unfiltered_len {
        Some(u) => "("@ + decimal((u - count) as nat) + " results filtered out)\n"@,
        None => Seq::empty(),
    }
}

impl PrinterState {
    pub closed spec fn last_group(&self) -> Option<Seq<char>> {
        group_view(self.group)
    }

    pub closed spec fn printed(&self) -> nat {
        self.count as nat
    }

    pub fn new() -> (r: PrinterState)
        ensures
            r.last_group() is None,
            r.printed() == 0,
    {
        PrinterState { group: None, count: 0 }
    }

    /// Prints an entry.
    pub fn advance<P: PrintArticleEntry>(&mut self, entry: &P) -> (r: Vec<StyledText>)
        requires
            old(self).printed() < usize::MAX,
        ensures
            pieces(r@) == advance_text(old(self).last_group(), entry.group_of(), entry.shown()),
            final(self).last_group() == Some(entry.group_of()),
            final(self).printed() == old(self).printed() + 1,
    {
        self.count = self.count + 1;
        let group = entry.group();
        let same = match &self.group {
            Some(g) => g.same(group),
            None => false,
        };
        let mut r: Vec<StyledText> = Vec::new();
        if !same {
            self.group = Some(group.clone());
            let mut line = string_from("\n");
            let name = group.to_string();
            push_str(&mut line, name.as_str());
            push_str(&mut line, "\n\n");
            r.push(styled(line, TextStyle::Plain));
        }
        r.push(styled(string_from("\t"), TextStyle::Plain));
        let mut shown = entry.display();
        r.append(&mut shown);
        r.push(styled(string_from("\n"), TextStyle::Plain));
        proof {
            reveal_strlit("\n\n");
        }
        assert(pieces(r@) =~= advance_text(old(self).last_group(), entry.group_of(), entry.shown()));
        r
    }

    /// The closing lines.
    pub fn finish(self, unfiltered_len: Option<usize>) -> (r: String)
        requires
            unfiltered_len matches Some(u) ==> u >= self.printed(),
        ensures
            r@ == finish_text(self.printed(), unfiltered_len),
    {
        let mut out = string_from("\n(");
        let n = decimal_string(self.count as u128);
        push_str(&mut out, n.as_str());
        push_str(&mut out, " results)\n");
        if let Some(u) = unfiltered_len {
            push_str(&mut out, "(");
            let m = decimal_string((u - self.count) as u128);
            push_str(&mut out, m.as_str());
            push_str(&mut out, " results filtered out)\n");
        }
        out
    }
}

/// The group of the last of the entries.
pub open spec fn last_group_of<P: PrintArticleEntry>(entries: Seq<P>) -> Option<Seq<char>> {
    if entries.len() == 0 {
        None
    } else {
        Some(entries.last().group_of())
    }
}

/// What printing the entries one after another writes.
pub open spec fn print_text<P: PrintArticleEntry>(entries: Seq<P>) -> Seq<(Seq<char>, TextStyle)>
    decreases entries.len(),
{
    if entries.len() == 0 {
        Seq::empty()
    } else {
        print_text(entries.drop_last()) + advance_text(
            last_group_of(entries.drop_last()),
            entries.last().group_of(),
            entries.last().shown(),
        )
    }
}

/// Prints the entries grouped, then the count.
pub fn print<P: PrintArticleEntry>(unfiltered_len: Option<usize>, entries: &[P]) -> (r: (
    Vec<StyledText>,
    String,
))
    requires
        unfiltered_len matches Some(u) ==> u >= entries@.len(),
    ensures
        pieces(r.0@) == print_text(entries@),
        r.1@ == finish_text(entries@.len(), unfiltered_len),
{
    let mut state = PrinterState::new();
    let mut out: Vec<StyledText> = Vec::new();
    let mut i: usize = 0;
    while i < entries.len()
        invariant
            i <= entries@.len(),
            state.printed() == i,
            state.last_group() == last_group_of(entries@.take(i as int)),
            pieces(out@) == print_text(entries@.take(i as int)),
        decreases entries@.len() - i,
    {
        assert(entries@.take(i + 1).drop_last() =~= entries@.take(i as int));
        let ghost before = out@;
        let mut lines = state.advance(&entries[i]);
        let ghost added = lines@;
        out.append(&mut lines);
        assert(pieces(out@) =~= pieces(before) + pieces(added));
        i = i + 1;
    }
    assert(entries@.take(i as int) =~= entries@);
    let end = state.finish(unfiltered_len);
    (out, end)
}

} // verus!
