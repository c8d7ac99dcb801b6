//! What is read from the wiki's pages.  `page` parses a page and picks out
//! the elements that the reading looks at, as plain records (texts, links
//! and attributes); the other modules decide what they mean.

pub mod article;
pub mod trope;
pub mod related;
pub mod page;

use vstd::prelude::*;
use std::ops::Range;
use crate::name::NameError;
use crate::text::{
    blank, chars_of, find_chars, find_spec, has_prefix, is_blank, push_chars, push_str,
    slice_skip, slice_take, starts_with, utf8_len, utf8_length, lemma_encode_concat,
    lemma_find_from, lemma_utf8_len_encode,
};
use vstd::utf8::encode_utf8;

verus! {

/// Why a page could not be read.
#[derive(Debug, Clone, Copy, PartialEq, Eq)]
pub enum CrawlError {
    /// The page has no main article.
    NoMain,
    /// The page has no title element.
    NoTitle,
    /// The title element holds no text.
    EmptyTitle,
    /// The page has no link to the trope.
    MissingTrope,
    /// The entry's first link has no target.
    FirstLinkMissingHref,
    /// The trope's link stands in no list item, paragraph or block.
    NoBlockParent,
    /// A listed link has no target.
    LinkMissingHref,
    /// The trope's link stands directly under the document.
    ParentMissing,
    /// A link does not point at an article.
    InvalidName(NameError),
}

/// The texts of a list of strings.
pub open spec fn texts(v: Seq<String>) -> Seq<Seq<char>> {
    Seq::new(v.len(), |i: int| v[i]@)
}

/// The pieces that are not blank, in order.
pub open spec fn kept(pieces: Seq<Seq<char>>) -> Seq<Seq<char>>
    decreases pieces.len(),
{
    if pieces.len() == 0 {
        Seq::empty()
    } else if is_blank(pieces.last()) {
        kept(pieces.drop_last())
    } else {
        kept(pieces.drop_last()).push(pieces.last())
    }
}

/// The pieces joined together.
pub open spec fn concat_all(pieces: Seq<Seq<char>>) -> Seq<char>
    decreases pieces.len(),
{
    if pieces.len() == 0 {
        Seq::empty()
    } else {
        concat_all(pieces.drop_last()) + pieces.last()
    }
}

/// `s` without a leading `": "`.
pub open spec fn strip_colon(s: Seq<char>) -> Seq<char> {
    if has_prefix(s, seq![':', ' ']) {
        s.skip(2)
    } else {
        s
    }
}

/// The text of a list entry from its non-blank pieces: the first piece is
/// the trope's name and is left out; the second loses a leading `": "`.
pub open spec fn entry_text_of_kept(k: Seq<Seq<char>>) -> Seq<char> {
    if k.len() < 2 {
        Seq::empty()
    } else {
        strip_colon(k[1]) + concat_all(k.skip(2))
    }
}

/// The text of a list entry from its text pieces.
pub open spec fn entry_text(pieces: Seq<Seq<char>>) -> Seq<char> {
    entry_text_of_kept(kept(pieces))
}

/// The text of a list entry: its non-blank text pieces after the first,
/// joined, with a leading `": "` taken off the first of them.
pub fn entry_text_of(pieces: &Vec<String>) -> (r: String)
    ensures
        r@ == entry_text(texts(pieces@)),
{
    let ghost all = texts(pieces@);
    let mut out = String::new();
    let mut seen: usize = 0;
    let mut i: usize = 0;
    while i < pieces.len()
        invariant
            i <= pieces@.len(),
            all == texts(pieces@),
            seen == kept(all.take(i as int)).len(),
            seen <= i,
            out@ == entry_text_of_kept(kept(all.take(i as int))),
        decreases pieces@.len() - i,
    {
        let ghost k = kept(all.take(i as int));
        assert(all.take(i + 1).drop_last() =~= all.take(i as int));
        assert(all.take(i + 1).last() == pieces@[i as int]@);
        let piece = pieces[i].as_str();
        if !blank(piece) {
            let ghost k2 = k.push(piece@);
            if seen == 1 {
                assert(k2.skip(2) =~= Seq::<Seq<char>>::empty());
                assert(concat_all(k2.skip(2)) =~= Seq::<char>::empty());
                let cs = chars_of(piece);
                let colon = [':', ' '];
                if starts_with(cs.as_slice(), colon.as_slice()) {
                    let rest = slice_skip(cs.as_slice(), 2);
                    push_chars(&mut out, rest.as_slice());
                } else {
                    push_str(&mut out, piece);
                }
                assert(out@ =~= entry_text_of_kept(k2));
            } else if seen >= 2 {
                assert(k2.skip(2) =~= k.skip(2).push(piece@));
                assert(k2.skip(2).drop_last() =~= k.skip(2));
                push_str(&mut out, piece);
                assert(out@ =~= entry_text_of_kept(k2));
            }
            seen = seen + 1;
        }
        i = i + 1;
    }
    assert(all.take(i as int) =~= all);
    out
}

/// Where `pat` first stands in `text`, as a range of UTF-8 byte offsets,
/// if it occurs and the range fits in `usize`.
pub open spec fn byte_range(text: Seq<char>, pat: Seq<char>) -> Option<Range<usize>> {
    match find_spec(text, pat) {
        Some(i) => {
            let start = utf8_len(text.take(i));
            let end = start + utf8_len(pat);
            if end <= usize::MAX {
                Some(Range { start: start as usize, end: end as usize })
            } else {
                None
            }
        },
        None => None,
    }
}

/// Where `pat` first stands in `text`, in bytes (`str::find` and the
/// pattern's length).
pub fn text_range(text: &str, pat: &str) -> (r: Option<Range<usize>>)
    ensures
        r == byte_range(text@, pat@),
{
    let t = chars_of(text);
    let p = chars_of(pat);
    match find_chars(t.as_slice(), p.as_slice()) {
        Some(i) => {
            let head = slice_take(t.as_slice(), i);
            match (utf8_length(head.as_slice()), utf8_length(p.as_slice())) {
                (Some(start), Some(len)) => {
                    if len <= usize::MAX - start {
                        Some(Range { start, end: start + len })
                    } else {
                        None
                    }
                },
                _ => None,
            }
        },
        None => None,
    }
}

/// The byte range of a found pattern picks exactly the pattern's UTF-8 bytes
/// out of the text's, so slicing the text by it gives the pattern.
pub proof fn lemma_byte_range_bytes(text: Seq<char>, pat: Seq<char>)
    requires
        byte_range(text, pat) is Some,
    ensures
        ({
            let r = byte_range(text, pat)->Some_0;
            encode_utf8(text).subrange(r.start as int, r.end as int) == encode_utf8(pat)
        }),
{
    lemma_find_from(text, pat, 0);
    let i = find_spec(text, pat)->Some_0;
    let head = text.take(i);
    let tail = text.skip(i + pat.len());
    assert(text =~= head + pat + tail);
    lemma_encode_concat(head + pat, tail);
    lemma_encode_concat(head, pat);
    lemma_utf8_len_encode(head);
    lemma_utf8_len_encode(pat);
    let all = encode_utf8(head) + encode_utf8(pat) + encode_utf8(tail);
    assert(all.subrange(
        encode_utf8(head).len() as int,
        (encode_utf8(head).len() + encode_utf8(pat).len()) as int,
    ) =~= encode_utf8(pat));
}

} // verus!
