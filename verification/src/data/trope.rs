//! What is shown of an article's tropes.

use vstd::prelude::*;
use crate::name::{ArticleName, article_url_spec, display_without_main_spec};
use crate::term::link_text;
use crate::text::{push_str, string_from};
use super::styled::{StyledText, TextStyle, piece, pieces, styled};

verus! {

/// Something shown as styled pieces of text.
pub trait TropeDisplay {
    /// The pieces shown.
    spec fn shown(&self) -> Seq<(Seq<char>, TextStyle)>;

    fn segments(&self) -> (r: Vec<StyledText>)
        ensures
            pieces(r@) == self.shown(),
    ;
}

/// No tropes: nothing is shown.
#[derive(Debug)]
pub struct TropeDataStub;

impl TropeDisplay for TropeDataStub {
    open spec fn shown(&self) -> Seq<(Seq<char>, TextStyle)> {
        Seq::empty()
    }

    fn segments(&self) -> (r: Vec<StyledText>) {
        let r: Vec<StyledText> = Vec::new();
        assert(pieces(r@) =~= Seq::empty());
        r
    }
}

/// One trope and the text of its entry on the article: none when the
/// article lacks it.
#[derive(Debug)]
pub struct TropeDataSingle {
    pub trope: ArticleName,
    pub text: Option<String>,
}

/// The hyperlink to an article, as `ArticleName::display_link` writes it.
pub open spec fn article_link(a: (Seq<char>, Seq<char>)) -> Seq<char> {
    link_text(display_without_main_spec(a), article_url_spec(a))
}

/// How an entry's text is shown: a red mark when the trope is missing, a
/// dim one when its text is empty, the text otherwise.
pub open spec fn entry_shown(text: Option<Seq<char>>) -> (Seq<char>, TextStyle) {
    match text {
        None => ("(trope missing)"@, TextStyle::OnRed),
        Some(t) => if t.len() == 0 {
            ("(trope blank)"@, TextStyle::Dim)
        } else {
            (t, TextStyle::Plain)
        },
    }
}

pub open spec fn text_view(text: Option<String>) -> Option<Seq<char>> {
    match text {
        Some(t) => Some(t@),
        None => None,
    }
}

impl TropeDataSingle {
    /// How the entry's text is shown.
    pub fn display_text(&self) -> (r: StyledText)
        ensures
            piece(r) == entry_shown(text_view(self.text)),
    {
        match &self.text {
            None => styled(string_from("(trope missing)"), TextStyle::OnRed),
            Some(t) => if t.as_str().is_empty() {
                styled(string_from("(trope blank)"), TextStyle::Dim)
            } else {
                styled(t.clone(), TextStyle::Plain)
            },
        }
    }
}

impl TropeDisplay for TropeDataSingle {
    /// `LINK: TEXT` and a line break.
    open spec fn shown(&self) -> Seq<(Seq<char>, TextStyle)> {
        seq![
            (article_link(self.trope@) + ": "@, TextStyle::Plain),
            entry_shown(text_view(self.text)),
            ("\n"@, TextStyle::Plain),
        ]
    }

    fn segments(&self) -> (r: Vec<StyledText>) {
        let mut head = self.trope.display_link();
        push_str(&mut head, ": ");
        let r = vec![
            styled(head, TextStyle::Plain),
            self.display_text(),
            styled(string_from("\n"), TextStyle::Plain),
        ];
        assert(pieces(r@) =~= self.shown());
        r
    }
}

/// A list of tropes.
#[derive(Debug)]
pub struct TropeDataFlatList(pub Vec<ArticleName>);

/// A line break, then each trope's link on a line of its own.
pub open spec fn flat_list_lines(tropes: Seq<ArticleName>) -> Seq<char>
    decreases tropes.len(),
{
    if tropes.len() == 0 {
        "\n"@
    } else {
        flat_list_lines(tropes.drop_last()) + article_link(tropes.last()@) + "\n"@
    }
}

impl TropeDisplay for TropeDataFlatList {
    open spec fn shown(&self) -> Seq<(Seq<char>, TextStyle)> {
        seq![(flat_list_lines(self.0@) + "\n"@, TextStyle::Plain)]
    }

    fn segments(&self) -> (r: Vec<StyledText>) {
        let mut out = string_from("\n");
        let mut i: usize = 0;
        while i < self.0.len()
            invariant
                i <= self.0@.len(),
                out@ == flat_list_lines(self.0@.take(i as int)),
            decreases self.0@.len() - i,
        {
            assert(self.0@.take(i + 1).drop_last() =~= self.0@.take(i as int));
            let l = self.0[i].display_link();
            push_str(&mut out, l.as_str());
            push_str(&mut out, "\n");
            i = i + 1;
        }
        assert(self.0@.take(i as int) =~= self.0@);
        push_str(&mut out, "\n");
        let r = vec![styled(out, TextStyle::Plain)];
        assert(pieces(r@) =~= self.shown());
        r
    }
}

} // verus!
