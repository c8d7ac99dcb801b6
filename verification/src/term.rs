//! Terminal hyperlinks.

use vstd::prelude::*;

verus! {

broadcast use vstd::string::group_string_axioms;

/// The OSC 8 escape sequence that opens a hyperlink; the target follows.
pub open spec fn link_open() -> Seq<char> {
    "\x1B]8;;"@
}

/// Ends the target of a hyperlink; the visible text follows.
pub open spec fn link_mid() -> Seq<char> {
    "\x1B\\"@
}

/// Closes a hyperlink.
pub open spec fn link_close() -> Seq<char> {
    "\x1B]8;;\x1B\\"@
}

/// A terminal hyperlink showing `name` that points at `url`.
pub open spec fn link_text(name: Seq<char>, url: Seq<char>) -> Seq<char> {
    link_open() + url + link_mid() + name + link_close()
}

/// Renders `name` as an OSC 8 hyperlink to `url`.
pub fn link(name: &str, url: &str) -> (out: String)
    ensures
        out@ == link_text(name@, url@),
{
    let mut out = String::new();
    out.append("\x1B]8;;");
    out.append(url);
    out.append("\x1B\\");
    out.append(name);
    out.append("\x1B]8;;\x1B\\");
    assert(out@ =~= link_text(name@, url@));
    out
}

/// The answers to the verdict prompt.
#[derive(Debug, Clone, Copy, PartialEq, Eq, Structural)]
pub enum VerdictPrompt {
    Yes,
    No,
    Skip,
    Quit,
}

/// The answer that a key gives: its letter in either case.
pub open spec fn prompt_key(c: char) -> Option<VerdictPrompt> {
    if c == 'y' || c == 'Y' {
        Some(VerdictPrompt::Yes)
    } else if c == 'n' || c == 'N' {
        Some(VerdictPrompt::No)
    } else if c == 's' || c == 'S' {
        Some(VerdictPrompt::Skip)
    } else if c == 'q' || c == 'Q' {
        Some(VerdictPrompt::Quit)
    } else {
        None
    }
}

/// The line that tells which keys answer.
pub open spec fn prompt_help() -> Seq<char> {
    "[y = yes, n = no, s = skip, q = quit]"@
}

impl VerdictPrompt {
    /// The answer that a key gives, if any; other keys are ignored.
    pub fn from_key(c: char) -> (r: Option<VerdictPrompt>)
        ensures
            r == prompt_key(c),
    {
        if c == 'y' || c == 'Y' {
            Some(VerdictPrompt::Yes)
        } else if c == 'n' || c == 'N' {
            Some(VerdictPrompt::No)
        } else if c == 's' || c == 'S' {
            Some(VerdictPrompt::Skip)
        } else if c == 'q' || c == 'Q' {
            Some(VerdictPrompt::Quit)
        } else {
            None
        }
    }

    /// The line that tells which keys answer.
    pub fn help() -> (r: &'static str)
        ensures
            r@ == prompt_help(),
    {
        "[y = yes, n = no, s = skip, q = quit]"
    }
}

} // verus!
