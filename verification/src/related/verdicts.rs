//! Joining a page of related articles with the stored verdicts.

use vstd::prelude::*;
use crate::database::{ArticleVerdict, Verdict};
use crate::name::{ArticleName, NameError, parse_article};
use super::list::RelatedArticleEntry;

verus! {

/// The error of the first stored row whose name does not parse, if any.
pub open spec fn rows_error(rows: Seq<ArticleVerdict>) -> Option<NameError>
    decreases rows.len(),
{
    if rows.len() == 0 {
        None
    } else {
        match rows_error(rows.drop_last()) {
            Some(e) => Some(e),
            None => match parse_article(rows.last().name@) {
                Err(e) => Some(e),
                Ok(_) => None,
            },
        }
    }
}

/// The verdict that the stored rows give an article: that of the last row
/// that names it.
pub open spec fn stored_verdict(rows: Seq<ArticleVerdict>, a: (Seq<char>, Seq<char>)) -> Option<
    Verdict,
>
    decreases rows.len(),
{
    if rows.len() == 0 {
        None
    } else if parse_article(rows.last().name@) == Ok::<_, NameError>(a) {
        Some(rows.last().verdict)
    } else {
        stored_verdict(rows.drop_last(), a)
    }
}

/// The verdict stored for an article comes from the last stored row whose
/// name parses to that very article, same group and same page; where no row
/// names it, it has no stored verdict.  A row for another article, such as
/// one with the same page in another group, never gives it one.
pub proof fn lemma_stored_verdict_names_the_article(
    rows: Seq<ArticleVerdict>,
    a: (Seq<char>, Seq<char>),
)
    ensures
        stored_verdict(rows, a) is None <==> forall|i: int|
            0 <= i < rows.len() ==> parse_article((#[trigger] rows[i]).name@) != Ok::<_, NameError>(a),
        stored_verdict(rows, a) matches Some(w) ==> exists|i: int|
            0 <= i < rows.len() && parse_article((#[trigger] rows[i]).name@) == Ok::<_, NameError>(a)
                && rows[i].verdict == w && forall|j: int|
                i < j < rows.len() ==> parse_article((#[trigger] rows[j]).name@) != Ok::<
                    _,
                    NameError,
                >(a),
    decreases rows.len(),
{
    if rows.len() > 0 {
        let d = rows.drop_last();
        lemma_stored_verdict_names_the_article(d, a);
        let n = rows.len() - 1;
        assert forall|i: int| 0 <= i < n implies #[trigger] rows[i] == d[i] by {}
        if parse_article(rows.last().name@) == Ok::<_, NameError>(a) {
            assert(rows[n] == rows.last());
        } else {
            assert(rows[n] == rows.last());
            if let Some(w) = stored_verdict(d, a) {
                let i = choose|i: int|
                    0 <= i < d.len() && parse_article((#[trigger] d[i]).name@) == Ok::<_, NameError>(a)
                        && d[i].verdict == w && forall|j: int|
                        i < j < d.len() ==> parse_article((#[trigger] d[j]).name@) != Ok::<
                            _,
                            NameError,
                        >(a);
                assert(rows[i] == d[i]);
                assert forall|j: int| i < j < rows.len() implies parse_article(
                    (#[trigger] rows[j]).name@,
                ) != Ok::<_, NameError>(a) by {
                    if j < n {
                        assert(rows[j] == d[j]);
                    }
                }
            } else {
                assert forall|i: int| 0 <= i < rows.len() implies parse_article(
                    (#[trigger] rows[i]).name@,
                ) != Ok::<_, NameError>(a) by {
                    if i < n {
                        assert(rows[i] == d[i]);
                    }
                }
            }
        }
    }
}

/// Each article of the page with the verdict stored for it; an error if a
/// stored name does not parse.
pub fn related_entries(names: &Vec<ArticleName>, rows: &Vec<ArticleVerdict>) -> (r: Result<
    Vec<RelatedArticleEntry>,
    NameError,
>)
    ensures
        match rows_error(rows@) {
            Some(e) => r == Err::<Vec<RelatedArticleEntry>, NameError>(e),
            None => r matches Ok(entries) && entries@.len() == names@.len() && forall|i: int|
                0 <= i < names@.len() ==> (#[trigger] entries@[i]).article_name == names@[i]
                    && entries@[i].verdict == stored_verdict(rows@, names@[i]@),
        },
{
    let mut parsed: Vec<ArticleName> = Vec::new();
    let mut i: usize = 0;
    while i < rows.len()
        invariant
            i <= rows@.len(),
            parsed@.len() == i,
            rows_error(rows@.take(i as int)) is None,
            forall|k: int|
                0 <= k < i ==> parse_article(rows@[k].name@) == Ok::<_, NameError>(
                    (#[trigger] parsed@[k])@,
                ),
        decreases rows@.len() - i,
    {
        assert(rows@.take(i + 1).drop_last() =~= rows@.take(i as int));
        match ArticleName::from_str(rows[i].name.as_str()) {
            Ok(a) => {
                parsed.push(a);
            },
            Err(e) => {
                proof {
                    lemma_rows_error_prefix(rows@, (i + 1) as int);
                }
                return Err(e);
            },
        }
        i = i + 1;
    }
    assert(rows@.take(rows@.len() as int) =~= rows@);
    let mut out: Vec<RelatedArticleEntry> = Vec::new();
    let n = names.len();
    let mut m: usize = 0;
    while m < n
        invariant
            m <= n == names@.len(),
            out@.len() == m,
            parsed@.len() == rows@.len(),
            rows_error(rows@) is None,
            forall|k: int|
                0 <= k < parsed@.len() ==> parse_article(rows@[k].name@) == Ok::<_, NameError>(
                    (#[trigger] parsed@[k])@,
                ),
            forall|k: int|
                0 <= k < m ==> (#[trigger] out@[k]).article_name == names@[k] && out@[k].verdict
                    == stored_verdict(rows@, names@[k]@),
        decreases n - m,
    {
        let name = names[m].clone();
        let verdict = last_verdict(&parsed, rows, &name);
        out.push(RelatedArticleEntry { article_name: name, verdict });
        m = m + 1;
    }
    Ok(out)
}

/// The verdict of the last parsed row that names `name`.
fn last_verdict(parsed: &Vec<ArticleName>, rows: &Vec<ArticleVerdict>, name: &ArticleName) -> (r:
    Option<Verdict>)
    requires
        parsed@.len() == rows@.len(),
        forall|k: int|
            0 <= k < parsed@.len() ==> parse_article(rows@[k].name@) == Ok::<_, NameError>(
                (#[trigger] parsed@[k])@,
            ),
    ensures
        r == stored_verdict(rows@, name@),
{
    let mut j: usize = parsed.len();
    assert(rows@.take(j as int) =~= rows@);
    while j > 0
        invariant
            j <= parsed@.len() == rows@.len(),
            forall|k: int|
                0 <= k < parsed@.len() ==> parse_article(rows@[k].name@) == Ok::<_, NameError>(
                    (#[trigger] parsed@[k])@,
                ),
            stored_verdict(rows@, name@) == stored_verdict(rows@.take(j as int), name@),
        decreases j,
    {
        let k = j - 1;
        assert(rows@.take(j as int).drop_last() =~= rows@.take(k as int));
        assert(rows@.take(j as int).last() == rows@[k as int]);
        if parsed[k].same(name) {
            return Some(rows[k].verdict);
        }
        j = k;
    }
    None
}

/// A name that does not parse makes the error of every longer prefix.
proof fn lemma_rows_error_prefix(rows: Seq<ArticleVerdict>, j: int)
    requires
        0 < j <= rows.len(),
        rows_error(rows.take(j - 1)) is None,
        parse_article(rows[j - 1].name@) is Err,
    ensures
        rows_error(rows) == Some(parse_article(rows[j - 1].name@)->Err_0),
    decreases rows.len() - j,
{
    assert(rows.take(j).drop_last() =~= rows.take(j - 1));
    assert(rows_error(rows.take(j)) == Some(parse_article(rows[j - 1].name@)->Err_0));
    lemma_rows_error_extends(rows, j);
}

/// Once a prefix has an error, the whole has the same one.
proof fn lemma_rows_error_extends(rows: Seq<ArticleVerdict>, j: int)
    requires
        0 <= j <= rows.len(),
        rows_error(rows.take(j)) is Some,
    ensures
        rows_error(rows) == rows_error(rows.take(j)),
    decreases rows.len() - j,
{
    if j == rows.len() {
        assert(rows.take(j) =~= rows);
    } else {
        assert(rows.take(j + 1).drop_last() =~= rows.take(j));
        lemma_rows_error_extends(rows, j + 1);
    }
}

} // verus!
