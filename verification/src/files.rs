//! Verdicts kept in the history file.

use vstd::prelude::*;
use crate::data::styled::{StyledText, TextStyle, piece, styled};
use crate::list::{ArticleMap, key_index, lemma_insert_then_get};
use crate::name::ArticleName;
use crate::text::{chars_of, string_from};

verus! {

broadcast use vstd::string::group_string_axioms;

/// A verdict recorded in the history file.
#[derive(Debug, Clone, Copy, PartialEq, Eq, Structural)]
pub enum Verdict {
    Yes,
    No,
}

/// The character with ASCII upper-case letters made lower-case.
pub open spec fn ascii_lower(c: char) -> char {
    if 'A' <= c <= 'Z' {
        ((c as u32) + 32) as char
    } else {
        c
    }
}

/// Whether two texts are equal up to ASCII case.
pub open spec fn eq_ignore_ascii_case(a: Seq<char>, b: Seq<char>) -> bool {
    a.len() == b.len() && forall|i: int| 0 <= i < a.len() ==> ascii_lower(#[trigger] a[i]) == ascii_lower(b[i])
}

/// The lower-case text of a verdict.
pub open spec fn verdict_text(v: Verdict) -> Seq<char> {
    match v {
        Verdict::Yes => seq!['y', 'e', 's'],
        Verdict::No => seq!['n', 'o'],
    }
}

/// What reading a verdict from text gives: `yes` or `no` in any ASCII case.
pub open spec fn parse_verdict(s: Seq<char>) -> Option<Verdict> {
    if eq_ignore_ascii_case(s, verdict_text(Verdict::Yes)) {
        Some(Verdict::Yes)
    } else if eq_ignore_ascii_case(s, verdict_text(Verdict::No)) {
        Some(Verdict::No)
    } else {
        None
    }
}

/// A text that is no verdict ("unexpected verdict '...'").
#[derive(Debug, Clone, PartialEq, Eq)]
pub struct UnexpectedVerdict {
    pub value: String,
}

fn lower_char(c: char) -> (r: char)
    ensures
        r == ascii_lower(c),
{
    if 'A' <= c && c <= 'Z' {
        ((c as u8) + 32) as char
    } else {
        c
    }
}

fn chars_eq_ignore_ascii_case(a: &[char], b: &[char]) -> (r: bool)
    ensures
        r == eq_ignore_ascii_case(a@, b@),
{
    if a.len() != b.len() {
        return false;
    }
    let mut i: usize = 0;
    while i < a.len()
        invariant
            a@.len() == b@.len(),
            i <= a@.len(),
            forall|j: int| 0 <= j < i ==> ascii_lower(#[trigger] a@[j]) == ascii_lower(b@[j]),
        decreases a@.len() - i,
    {
        if lower_char(a[i]) != lower_char(b[i]) {
            return false;
        }
        i = i + 1;
    }
    true
}

impl Verdict {
    /// Reads `yes` or `no`, in any ASCII case.
    pub fn from_str(s: &str) -> (r: Result<Verdict, UnexpectedVerdict>)
        ensures
            r matches Ok(v) ==> parse_verdict(s@) == Some(v),
            r matches Err(e) ==> parse_verdict(s@) is None && e.value@ == s@,
    {
        proof {
            reveal_strlit("yes");
            reveal_strlit("no");
        }
        let cs = chars_of(s);
        let yes = chars_of("yes");
        let no = chars_of("no");
        assert(yes@ =~= verdict_text(Verdict::Yes));
        assert(no@ =~= verdict_text(Verdict::No));
        if chars_eq_ignore_ascii_case(cs.as_slice(), yes.as_slice()) {
            Ok(Verdict::Yes)
        } else if chars_eq_ignore_ascii_case(cs.as_slice(), no.as_slice()) {
            Ok(Verdict::No)
        } else {
            Err(UnexpectedVerdict { value: s.to_owned() })
        }
    }

    /// `yes` or `no`.
    pub fn as_str(&self) -> (r: &'static str)
        ensures
            r@ == verdict_text(*self),
    {
        proof {
            reveal_strlit("yes");
            reveal_strlit("no");
        }
        match self {
            Verdict::Yes => "yes",
            Verdict::No => "no",
        }
    }
}

impl Verdict {
    /// The verdict as shown: `yes` in green, `no` in red.
    pub fn display(&self) -> (r: StyledText)
        ensures
            piece(r) == (verdict_text(*self), match self {
                Verdict::Yes => TextStyle::Green,
                Verdict::No => TextStyle::Red,
            }),
    {
        proof {
            reveal_strlit("yes");
            reveal_strlit("no");
        }
        match self {
            Verdict::Yes => styled(string_from("yes"), TextStyle::Green),
            Verdict::No => styled(string_from("no"), TextStyle::Red),
        }
    }
}

/// Reading the text of a verdict gives the verdict back.
pub proof fn lemma_parse_verdict_text(v: Verdict)
    ensures
        parse_verdict(verdict_text(v)) == Some(v),
{
    let y = verdict_text(Verdict::Yes);
    let n = verdict_text(Verdict::No);
    assert(eq_ignore_ascii_case(y, y));
    assert(eq_ignore_ascii_case(n, n));
    assert(!eq_ignore_ascii_case(n, y));
}

/// What the history file records about an article.
#[derive(Debug, Clone, Copy, PartialEq, Eq)]
pub struct HistoryEntry {
    pub verdict: Verdict,
}

/// The verdicts given so far, by article.
#[derive(Debug)]
pub struct History {
    map: ArticleMap<HistoryEntry>,
}

/// The verdicts of the entries of a history, by article.
pub open spec fn verdict_of(e: Option<HistoryEntry>) -> Option<Verdict> {
    match e {
        Some(h) => Some(h.verdict),
        None => None,
    }
}

impl History {
    /// The history that a map of entries holds.
    pub fn from_map(map: ArticleMap<HistoryEntry>) -> (r: History)
        ensures
            r.map() == map,
    {
        History { map }
    }

    pub closed spec fn map(&self) -> ArticleMap<HistoryEntry> {
        self.map
    }

    /// The verdict recorded for an article.
    pub open spec fn verdict(&self, article: (Seq<char>, Seq<char>)) -> Option<Verdict> {
        verdict_of(self.map().value_of(article))
    }

    /// The entries, for writing out.
    pub fn entries(&self) -> (r: &ArticleMap<HistoryEntry>)
        ensures
            *r == self.map(),
    {
        &self.map
    }

    /// Whether a verdict was given on `article`.
    pub fn has(&self, article: &ArticleName) -> (r: bool)
        ensures
            r == self.verdict(article@) is Some,
    {
        self.map.has(article)
    }

    /// Records a verdict on `article`; returns the one it replaces.
    pub fn insert(&mut self, article: ArticleName, verdict: Verdict) -> (r: Option<Verdict>)
        ensures
            r == old(self).verdict(article@),
            final(self).verdict(article@) == Some(verdict),
            forall|other: (Seq<char>, Seq<char>)|
                other != article@ ==> final(self).verdict(other) == old(self).verdict(other),
            match key_index(old(self).map().entries(), article@) {
                Some(i) => final(self).map().entries() == old(self).map().entries().update(
                    i,
                    (article, HistoryEntry { verdict }),
                ),
                None => final(self).map().entries() == old(self).map().entries().push(
                    (article, HistoryEntry { verdict }),
                ),
            },
    {
        proof {
            use_type_invariant(&self.map);
        }
        let ghost before = self.map;
        let ghost art = article;
        let r = self.map.insert(article, HistoryEntry { verdict });
        proof {
            lemma_insert_then_get(before, self.map, art, HistoryEntry { verdict }, art@);
            assert forall|other: (Seq<char>, Seq<char>)| other != art@ implies self.verdict(other)
                == verdict_of(before.value_of(other)) by {
                lemma_insert_then_get(before, self.map, art, HistoryEntry { verdict }, other);
            }
        }
        match r {
            Some(h) => Some(h.verdict),
            None => None,
        }
    }
}

} // verus!
