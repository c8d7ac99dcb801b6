//! Position in a run over a list: `(3/10)`.

use vstd::prelude::*;
use crate::text::{decimal, decimal_string};

verus! {

broadcast use vstd::string::group_string_axioms;

/// The zero-based position of the current item, and how many there are
/// when that is known.
#[derive(Debug, Clone, Copy)]
pub struct Progress {
    pub cur: usize,
    pub max: Option<usize>,
}

/// `(position/total)`, counting from one, with `?` for an unknown total.
pub open spec fn progress_text(cur: nat, max: Option<usize>) -> Seq<char> {
    seq!['('] + decimal(cur + 1) + seq!['/'] + match max {
        Some(m) => decimal(m as nat),
        None => seq!['?'],
    } + seq![')']
}

impl Progress {
    pub fn new(cur: usize, max: Option<usize>) -> (r: Progress)
        ensures
            r.cur == cur,
            r.max == max,
    {
        Progress { cur, max }
    }

    /// `(position/total)`, counting from one.
    pub fn to_string(&self) -> (r: String)
        ensures
            r@ == progress_text(self.cur as nat, self.max),
    {
        let mut out = String::new();
        out.append("(");
        let pos = decimal_string(self.cur as u128 + 1);
        out.append(pos.as_str());
        out.append("/");
        match self.max {
            Some(m) => {
                let total = decimal_string(m as u128);
                out.append(total.as_str());
            },
            None => {
                out.append("?");
            },
        }
        out.append(")");
        proof {
            reveal_strlit("(");
            reveal_strlit("/");
            reveal_strlit("?");
            reveal_strlit(")");
        }
        assert(out@ =~= progress_text(self.cur as nat, self.max));
        out
    }
}

} // verus!
