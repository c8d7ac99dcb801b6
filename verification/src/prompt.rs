//! Asking for a verdict on each article in turn.

use vstd::prelude::*;
use crate::files::{History, Verdict};
use crate::name::ArticleName;

verus! {

broadcast use vstd::string::group_string_axioms;

/// The answers offered for an article, in the order shown.
#[derive(Debug, Clone, Copy, PartialEq, Eq, Structural)]
pub enum Choice {
    Yes,
    No,
    Skip,
    Quit,
}

/// An answer number that is not offered ("invalid choice N").
#[derive(Debug, Clone, Copy, PartialEq, Eq)]
pub struct InvalidChoice {
    pub n: usize,
}

/// The label of an answer.
pub open spec fn choice_label(c: Choice) -> Seq<char> {
    match c {
        Choice::Yes => "Yes"@,
        Choice::No => "No"@,
        Choice::Skip => "Skip"@,
        Choice::Quit => "Quit"@,
    }
}

/// The answer at a position of the offered list.
pub open spec fn choice_at(n: int) -> Option<Choice> {
    if n == 0 {
        Some(Choice::Yes)
    } else if n == 1 {
        Some(Choice::No)
    } else if n == 2 {
        Some(Choice::Skip)
    } else if n == 3 {
        Some(Choice::Quit)
    } else {
        None
    }
}

impl Choice {
    pub fn as_str(&self) -> (r: &'static str)
        ensures
            r@ == choice_label(*self),
    {
        match self {
            Choice::Yes => "Yes",
            Choice::No => "No",
            Choice::Skip => "Skip",
            Choice::Quit => "Quit",
        }
    }

    /// The labels, in the order offered.
    pub fn strs() -> (r: [&'static str; 4])
        ensures
            r@[0]@ == choice_label(Choice::Yes),
            r@[1]@ == choice_label(Choice::No),
            r@[2]@ == choice_label(Choice::Skip),
            r@[3]@ == choice_label(Choice::Quit),
    {
        [Choice::Yes.as_str(), Choice::No.as_str(), Choice::Skip.as_str(), Choice::Quit.as_str()]
    }

    /// The position of the default answer.
    pub fn default_index() -> (r: usize)
        ensures
            choice_at(r as int) == Some(Choice::Yes),
    {
        0
    }

    /// The answer at position `n` of the offered list.
    pub fn try_from(n: usize) -> (r: Result<Choice, InvalidChoice>)
        ensures
            match choice_at(n as int) {
                Some(c) => r == Ok::<Choice, InvalidChoice>(c),
                None => r == Err::<Choice, InvalidChoice>(InvalidChoice { n }),
            },
    {
        match n {
            0 => Ok(Choice::Yes),
            1 => Ok(Choice::No),
            2 => Ok(Choice::Skip),
            3 => Ok(Choice::Quit),
            _ => Err(InvalidChoice { n }),
        }
    }
}

/// Acts on the answer for `article`: a verdict is recorded, a skip records
/// nothing.  Returns whether to go on to the next article (not after "quit").
pub fn apply_choice(history: &mut History, article: &ArticleName, choice: Choice) -> (r: bool)
    ensures
        r == (choice != Choice::Quit),
        match choice {
            Choice::Yes => final(history).verdict(article@) == Some(Verdict::Yes),
            Choice::No => final(history).verdict(article@) == Some(Verdict::No),
            _ => *final(history) == *old(history),
        },
        forall|other: (Seq<char>, Seq<char>)|
            other != article@ ==> final(history).verdict(other) == old(history).verdict(other),
{
    match choice {
        Choice::Yes => {
            let _ = history.insert(article.clone(), Verdict::Yes);
            true
        },
        Choice::No => {
            let _ = history.insert(article.clone(), Verdict::No);
            true
        },
        Choice::Skip => true,
        Choice::Quit => false,
    }
}

/// The answer at each position is the one whose label is shown there.
pub proof fn lemma_choice_positions(n: int)
    requires
        0 <= n < 4,
    ensures
        choice_at(n) matches Some(c) && choice_label(c) == seq!["Yes"@, "No"@, "Skip"@, "Quit"@][n],
{
}

} // verus!
