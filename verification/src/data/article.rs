//! What is shown of an article: its header and summary.

use vstd::prelude::*;
use crate::progress::{Progress, progress_text};
use crate::term::{link, link_text};
use crate::text::{
    chars_of, decimal, decimal_string, find_chars, find_spec, lemma_find_from, push_chars,
    push_str, slice_skip, slice_take, string_from, utf8_len, utf8_length,
};
use super::styled::{StyledText, TextStyle, pieces, styled};
use super::trope::TropeDisplay;

verus! {

broadcast use vstd::string::group_string_axioms;

/// Past this many bytes of shown paragraphs, further paragraphs are only
/// counted.
pub const SUMMARY_CUTOFF: usize = 2000;

/// An article's summary, paragraphs separated by blank lines.
#[derive(Debug)]
pub struct ArticleSummaryData(pub String);

/// Collects a summary paragraph by paragraph.
#[derive(Debug)]
pub struct ArticleSummaryDataBuilder(pub String);

/// `"\n\n"`, what separates paragraphs.
pub open spec fn para_break() -> Seq<char> {
    seq!['\n', '\n']
}

/// The pieces of `s` between the blank-line separators, from left to right
/// (`str::split("\n\n")`).
pub open spec fn split_paras(s: Seq<char>) -> Seq<Seq<char>>
    decreases s.len(),
{
    match find_spec(s, para_break()) {
        Some(i) => {
            proof {
                lemma_find_from(s, para_break(), 0);
            }
            seq![s.take(i)] + split_paras(s.skip(i + 2))
        },
        None => seq![s],
    }
}

/// How far the showing of paragraphs has come: bytes shown, paragraphs
/// left out, and the text so far.
pub ghost struct ParaState {
    pub written: nat,
    pub skipped: nat,
    pub text: Seq<char>,
}

/// Showing one more paragraph: an empty one is passed over; past the cutoff
/// it is only counted; otherwise it is written on its own line, after a
/// blank line if something came before.
pub open spec fn para_step(st: ParaState, p: Seq<char>) -> ParaState {
    if p.len() == 0 {
        st
    } else if st.written > SUMMARY_CUTOFF {
        ParaState { skipped: st.skipped + 1, ..st }
    } else {
        ParaState {
            written: st.written + utf8_len(p),
            text: (if st.written > 0 {
                st.text + seq!['\n']
            } else {
                st.text
            }) + p + seq!['\n'],
            ..st
        }
    }
}

pub open spec fn para_fold(st: ParaState, paras: Seq<Seq<char>>) -> ParaState
    decreases paras.len(),
{
    if paras.len() == 0 {
        st
    } else {
        para_fold(para_step(st, paras[0]), paras.drop_first())
    }
}

/// `(N more paragraphs)`.
pub open spec fn more_paragraphs(n: nat) -> Seq<char> {
    seq!['('] + decimal(n) + " more paragraphs)"@
}

/// How a summary is shown: its paragraphs up to the cutoff, then, if any
/// were left out, a blank line and how many.
pub open spec fn summary_display(s: Seq<char>) -> Seq<char> {
    let st = para_fold(ParaState { written: 0, skipped: 0, text: Seq::empty() }, split_paras(s));
    if st.skipped > 0 {
        st.text + seq!['\n'] + more_paragraphs(st.skipped) + seq!['\n']
    } else {
        st.text
    }
}

impl ArticleSummaryData {
    pub fn builder() -> (r: ArticleSummaryDataBuilder)
        ensures
            r.0@ == Seq::<char>::empty(),
    {
        ArticleSummaryDataBuilder(String::new())
    }

    /// The summary as shown.
    pub fn to_string(&self) -> (r: String)
        ensures
            r@ == summary_display(self.0@),
    {
        let all = chars_of(self.0.as_str());
        let ghost init = ParaState { written: 0, skipped: 0, text: Seq::empty() };
        assert(all@ == self.0@);
        let total = all.len();
        assert(self.0@.len() == total);
        let mut rest: Vec<char> = all;
        let mut written: usize = 0;
        let mut skipped: usize = 0;
        let mut out = String::new();
        let ghost mut st = init;
        let sep = ['\n', '\n'];
        assert(sep@ == para_break());
        let mut done = false;
        while !done
            invariant
                para_fold(init, split_paras(self.0@)) == if done {
                    st
                } else {
                    para_fold(st, split_paras(rest@))
                },
                out@ == st.text,
                skipped == st.skipped,
                written as int == if st.written > SUMMARY_CUTOFF + 1 {
                    SUMMARY_CUTOFF + 1
                } else {
                    st.written as int
                },
                skipped <= self.0@.len() - rest@.len(),
                rest@.len() <= self.0@.len() <= usize::MAX,
                sep@ == para_break(),
                !done ==> rest@.len() > 0 || split_paras(rest@) == seq![rest@],
            decreases rest@.len() + if done { 0int } else { 1int },
        {
            let ghost paras = split_paras(rest@);
            let (piece, next) = match find_chars(rest.as_slice(), sep.as_slice()) {
                Some(i) => {
                    proof {
                        lemma_find_from(rest@, para_break(), 0);
                    }
                    (slice_take(rest.as_slice(), i), Some(slice_skip(rest.as_slice(), i + 2)))
                },
                None => (slice_take(rest.as_slice(), rest.len()), None),
            };
            assert(paras[0] == piece@);
            let ghost old_st = st;
            proof {
                st = para_step(st, piece@);
                assert(para_fold(old_st, paras) == para_fold(st, paras.drop_first()));
            }
            if piece.len() > 0 {
                if written > SUMMARY_CUTOFF {
                    skipped = skipped + 1;
                } else {
                    if written > 0 {
                        push_str(&mut out, "\n");
                    }
                    proof {
                        reveal_strlit("\n");
                    }
                    push_chars(&mut out, piece.as_slice());
                    push_str(&mut out, "\n");
                    written = match utf8_length(piece.as_slice()) {
                        Some(n) => if n > SUMMARY_CUTOFF + 1 - written {
                            SUMMARY_CUTOFF + 1
                        } else {
                            written + n
                        },
                        None => SUMMARY_CUTOFF + 1,
                    };
                }
            }
            assert(out@ =~= st.text);
            match next {
                Some(r) => {
                    assert(paras.drop_first() =~= split_paras(r@));
                    rest = r;
                },
                None => {
                    assert(paras.drop_first() =~= Seq::<Seq<char>>::empty());
                    rest = Vec::new();
                    done = true;
                },
            }
        }
        if skipped > 0 {
            push_str(&mut out, "\n(");
            let n = decimal_string(skipped as u128);
            push_str(&mut out, n.as_str());
            push_str(&mut out, " more paragraphs)\n");
            proof {
                reveal_strlit("\n(");
                reveal_strlit(" more paragraphs)");
                reveal_strlit(" more paragraphs)\n");
            }
            assert(out@ =~= st.text + seq!['\n'] + more_paragraphs(st.skipped) + seq!['\n']);
        }
        out
    }
}

impl ArticleSummaryDataBuilder {
    /// Starts a new paragraph: a blank line, unless nothing was written yet.
    pub fn push_para(&mut self)
        ensures
            final(self).0@ == if old(self).0@.len() == 0 {
                old(self).0@
            } else {
                old(self).0@ + para_break()
            },
    {
        if !self.0.as_str().is_empty() {
            push_str(&mut self.0, "\n\n");
            proof {
                reveal_strlit("\n\n");
            }
        }
    }

    /// Appends text to the current paragraph.
    pub fn push_str(&mut self, para: &str)
        ensures
            final(self).0@ == old(self).0@ + para@,
    {
        push_str(&mut self.0, para);
    }

    pub fn build(self) -> (r: ArticleSummaryData)
        ensures
            r.0@ == self.0@,
    {
        ArticleSummaryData(self.0)
    }
}

/// An article's page, its summary and what is read of its tropes.
#[derive(Debug)]
pub struct ArticleData<T> {
    pub url: String,
    pub title: String,
    pub summary: ArticleSummaryData,
    pub tropes: T,
}

/// The header line: a blank line, then `=== TITLE ===` with the title
/// linking to the page, and the position in the run when there is one.
pub open spec fn header_text(title: Seq<char>, url: Seq<char>, progress: Option<Progress>) -> Seq<
    char,
> {
    "\n=== "@ + link_text(title, url) + " ==="@ + match progress {
        Some(p) => seq![' '] + progress_text(p.cur as nat, p.max),
        None => Seq::empty(),
    } + "\n\n"@
}

impl<T: TropeDisplay> ArticleData<T> {
    /// The article as shown: the header, the dimmed summary, then the
    /// tropes, each ending a line.
    pub open spec fn shown_with(&self, progress: Option<Progress>) -> Seq<(Seq<char>, TextStyle)> {
        seq![
            (header_text(self.title@, self.url@, progress), TextStyle::Plain),
            (summary_display(self.summary.0@), TextStyle::Dim),
            ("\n"@, TextStyle::Plain),
        ] + self.tropes.shown() + seq![("\n"@, TextStyle::Plain)]
    }

    /// The article as shown, with the position in a run.
    pub fn display_with_progress(&self, progress: Progress) -> (r: Vec<StyledText>)
        ensures
            pieces(r@) == self.shown_with(Some(progress)),
    {
        self.display_impl(Some(progress))
    }

    /// The article as shown.
    pub fn display(&self) -> (r: Vec<StyledText>)
        ensures
            pieces(r@) == self.shown_with(None),
    {
        self.display_impl(None)
    }

    fn display_impl(&self, progress: Option<Progress>) -> (r: Vec<StyledText>)
        ensures
            pieces(r@) == self.shown_with(progress),
    {
        let mut head = string_from("\n=== ");
        let l = link(self.title.as_str(), self.url.as_str());
        push_str(&mut head, l.as_str());
        push_str(&mut head, " ===");
        if let Some(p) = progress {
            push_str(&mut head, " ");
            let t = p.to_string();
            push_str(&mut head, t.as_str());
        }
        push_str(&mut head, "\n\n");
        proof {
            reveal_strlit(" ");
        }
        assert(head@ =~= header_text(self.title@, self.url@, progress));
        let mut r: Vec<StyledText> = Vec::new();
        r.push(styled(head, TextStyle::Plain));
        r.push(styled(self.summary.to_string(), TextStyle::Dim));
        r.push(styled(string_from("\n"), TextStyle::Plain));
        let mut tropes = self.tropes.segments();
        r.append(&mut tropes);
        r.push(styled(string_from("\n"), TextStyle::Plain));
        assert(pieces(r@) =~= self.shown_with(progress));
        r
    }
}

} // verus!
