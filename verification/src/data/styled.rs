//! Text with a terminal style.

use vstd::prelude::*;

verus! {

/// How a piece of text is shown.
#[derive(Debug, Clone, Copy, PartialEq, Eq, Structural)]
pub enum TextStyle {
    Plain,
    Dim,
    OnRed,
    Green,
    Red,
}

/// A piece of text and its style.
#[derive(Debug)]
pub struct StyledText {
    pub text: String,
    pub style: TextStyle,
}

/// A piece of text by its characters.
pub open spec fn piece(s: StyledText) -> (Seq<char>, TextStyle) {
    (s.text@, s.style)
}

/// The pieces of a list by their characters.
pub open spec fn pieces(v: Seq<StyledText>) -> Seq<(Seq<char>, TextStyle)> {
    Seq::new(v.len(), |i: int| piece(v[i]))
}

/// The text of all pieces, without styles.
pub open spec fn plain_text(p: Seq<(Seq<char>, TextStyle)>) -> Seq<char>
    decreases p.len(),
{
    if p.len() == 0 {
        Seq::empty()
    } else {
        plain_text(p.drop_last()) + p.last().0
    }
}

/// A piece of text in a style.
pub fn styled(text: String, style: TextStyle) -> (r: StyledText)
    ensures
        piece(r) == (text@, style),
{
    StyledText { text, style }
}

} // verus!
