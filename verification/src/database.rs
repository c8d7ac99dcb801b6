//! Verdicts kept in the database, and their one-letter codes.

use vstd::prelude::*;
use crate::text::{chars_of, chars_eq};

verus! {

broadcast use vstd::string::group_string_axioms;

/// The verdict on an article.
#[derive(Debug, Clone, Copy, PartialEq, Eq, Structural)]
pub enum Verdict {
    Yes,
    No,
    Ignore,
}

/// The title-case name of a verdict.
pub open spec fn verdict_name(v: Verdict) -> Seq<char> {
    match v {
        Verdict::Yes => "Yes"@,
        Verdict::No => "No"@,
        Verdict::Ignore => "Ignore"@,
    }
}

/// The one-letter code of a verdict in the database.
pub open spec fn verdict_code(v: Verdict) -> Seq<char> {
    match v {
        Verdict::Yes => seq!['y'],
        Verdict::No => seq!['n'],
        Verdict::Ignore => seq!['i'],
    }
}

/// The verdict at a position of the list of all verdicts.
pub open spec fn verdict_at(i: int) -> Option<Verdict> {
    if i == 0 {
        Some(Verdict::Yes)
    } else if i == 1 {
        Some(Verdict::No)
    } else if i == 2 {
        Some(Verdict::Ignore)
    } else {
        None
    }
}

/// A stored value that is no verdict code.
#[derive(Debug, Clone, PartialEq, Eq)]
pub struct InvalidVerdict {
    pub value: String,
}

/// What decoding a stored value gives.
pub open spec fn decode_spec(s: Seq<char>) -> Option<Verdict> {
    if s == seq!['y'] {
        Some(Verdict::Yes)
    } else if s == seq!['n'] {
        Some(Verdict::No)
    } else if s == seq!['i'] {
        Some(Verdict::Ignore)
    } else {
        None
    }
}

impl Verdict {
    /// How many verdicts there are.
    pub const VARIANT_COUNT: usize = 3;

    /// The title-case name.
    pub fn name(&self) -> (r: &'static str)
        ensures
            r@ == verdict_name(*self),
    {
        match self {
            Verdict::Yes => "Yes",
            Verdict::No => "No",
            Verdict::Ignore => "Ignore",
        }
    }

    /// All verdicts, in declaration order.
    pub fn variants() -> (r: Vec<Verdict>)
        ensures
            r@.len() == 3,
            forall|i: int| 0 <= i < 3 ==> verdict_at(i) == Some(#[trigger] r@[i]),
    {
        vec![Verdict::Yes, Verdict::No, Verdict::Ignore]
    }

    /// The verdict at position `i` of `variants()`.
    pub fn from_index(i: usize) -> (r: Option<Verdict>)
        ensures
            r == verdict_at(i as int),
    {
        if i == 0 {
            Some(Verdict::Yes)
        } else if i == 1 {
            Some(Verdict::No)
        } else if i == 2 {
            Some(Verdict::Ignore)
        } else {
            None
        }
    }

    /// The one-letter code stored in the database.
    pub fn encode(&self) -> (r: &'static str)
        ensures
            r@ == verdict_code(*self),
    {
        proof {
            reveal_strlit("y");
            reveal_strlit("n");
            reveal_strlit("i");
        }
        match self {
            Verdict::Yes => "y",
            Verdict::No => "n",
            Verdict::Ignore => "i",
        }
    }

    /// Reads a verdict from its one-letter code.
    pub fn decode(s: &str) -> (r: Result<Verdict, InvalidVerdict>)
        ensures
            r matches Ok(v) ==> decode_spec(s@) == Some(v),
            r matches Err(e) ==> decode_spec(s@) is None && e.value@ == s@,
    {
        proof {
            reveal_strlit("y");
            reveal_strlit("n");
            reveal_strlit("i");
        }
        let cs = chars_of(s);
        let y = chars_of("y");
        let n = chars_of("n");
        let i = chars_of("i");
        assert(y@ =~= seq!['y']);
        assert(n@ =~= seq!['n']);
        assert(i@ =~= seq!['i']);
        if chars_eq(cs.as_slice(), y.as_slice()) {
            Ok(Verdict::Yes)
        } else if chars_eq(cs.as_slice(), n.as_slice()) {
            Ok(Verdict::No)
        } else if chars_eq(cs.as_slice(), i.as_slice()) {
            Ok(Verdict::Ignore)
        } else {
            Err(InvalidVerdict { value: s.to_owned() })
        }
    }
}

/// Decoding the code of a verdict gives the verdict back, and the codes of
/// distinct verdicts differ.
pub proof fn lemma_decode_encode(v: Verdict, w: Verdict)
    ensures
        decode_spec(verdict_code(v)) == Some(v),
        v != w ==> verdict_code(v) != verdict_code(w),
{
    assert(seq!['y'] != seq!['n']) by {
        assert(seq!['y'][0] != seq!['n'][0]);
    }
    assert(seq!['y'] != seq!['i']) by {
        assert(seq!['y'][0] != seq!['i'][0]);
    }
    assert(seq!['n'] != seq!['i']) by {
        assert(seq!['n'][0] != seq!['i'][0]);
    }
}

/// A verdict as stored in the database, keyed by the article's text.
#[derive(Debug, Clone)]
pub struct ArticleVerdict {
    pub name: String,
    pub verdict: Verdict,
}

} // verus!
