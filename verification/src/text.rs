//! Text matching for catalog search: case-insensitive substring match on
//! title and author, exact substring match on isbn.

use vstd::prelude::*;
use crate::book::Book;

verus! {

/// `needle` occurs in `hay` as a contiguous run of characters.
pub open spec fn is_substring(needle: Seq<char>, hay: Seq<char>) -> bool {
    exists|i: int|
        0 <= i && i + needle.len() <= hay.len() && #[trigger] hay.subrange(i, i + needle.len())
            == needle
}

/// The lowercase form of `s`, as `str::to_lowercase` computes it. The full
/// Unicode mapping is not restated here; it depends on the characters alone.
pub uninterp spec fn lower_of(s: Seq<char>) -> Seq<char>;

/// Relies on `str::to_lowercase`: the result depends on the characters of
/// `s` alone, and an empty string stays empty.
#[verifier::external_body]
fn lowercase(s: &str) -> (r: String)
    ensures
        r@ == lower_of(s@),
        s@.len() == 0 ==> r@.len() == 0,
{
    s.to_lowercase()
}

/// Relies on `str::contains`: true exactly when `needle` occurs in `hay` as
/// a contiguous substring.
#[verifier::external_body]
fn contains_sub(hay: &str, needle: &str) -> (r: bool)
    ensures
        r == is_substring(needle@, hay@),
{
    hay.contains(needle)
}

/// `b` is a hit for the query `q`: the lowercase form of `q` occurs in the
/// lowercase form of the title or of the author, or `q` itself occurs in the
/// isbn.
pub open spec fn book_matches(b: Book, q: Seq<char>) -> bool {
    ||| is_substring(lower_of(q), lower_of(b.title@))
    ||| is_substring(lower_of(q), lower_of(b.author@))
    ||| is_substring(q, b.isbn@)
}

/// Decides whether `b` is a hit for the query.
pub fn book_matches_exec(b: &Book, query: &str) -> (r: bool)
    ensures
        r == book_matches(*b, query@),
{
    let query_lower = lowercase(query);
    let title_lower = lowercase(b.title.as_str());
    if contains_sub(title_lower.as_str(), query_lower.as_str()) {
        return true;
    }
    let author_lower = lowercase(b.author.as_str());
    if contains_sub(author_lower.as_str(), query_lower.as_str()) {
        return true;
    }
    contains_sub(b.isbn.as_str(), query)
}

} // verus!
