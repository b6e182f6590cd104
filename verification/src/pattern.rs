//! Regular-expression matching through the `regex` crate, as plain values:
//! the capture groups of every match, and the text between matches.

use vstd::prelude::*;

use crate::text::ov;
use crate::text::strs_view;

verus! {

/// One match's groups: group `g`'s text, `None` where it took no part.
pub open spec fn row_view(row: Seq<Option<String>>) -> Seq<Option<Seq<char>>> {
    row.map_values(|g: Option<String>| ov(g))
}

pub open spec fn rows_view(rows: Seq<Vec<Option<String>>>) -> Seq<Seq<Option<Seq<char>>>> {
    rows.map_values(|r: Vec<Option<String>>| row_view(r@))
}

/// Whether `regex::Regex::new` accepts the pattern.
pub uninterp spec fn regex_compiles(pattern: Seq<char>) -> bool;

/// The groups of every match of the pattern in the text, as
/// `Regex::captures_iter` yields them: non-overlapping, left to right.
pub uninterp spec fn regex_captures_of(pattern: Seq<char>, text: Seq<char>) -> Seq<
    Seq<Option<Seq<char>>>,
>;

/// The text between matches, as `Regex::split` yields it.
pub uninterp spec fn regex_pieces_of(pattern: Seq<char>, text: Seq<char>) -> Seq<Seq<char>>;

/// `regex::Regex::new` then `Regex::captures_iter`: `None` when the pattern
/// does not compile, else one row per match holding every group's text
/// (`Captures::iter`). Claimed beyond the names: group 0, the whole match,
/// is always present, as `Captures::get` documents.
#[verifier::external_body]
pub(crate) fn regex_captures(pattern: &str, text: &str) -> (r: Option<Vec<Vec<Option<String>>>>)
    ensures
        r is Some <==> regex_compiles(pattern@),
        r matches Some(rows) ==> rows_view(rows@) == regex_captures_of(pattern@, text@),
        r matches Some(rows) ==> forall|i: int|
            0 <= i < rows@.len() ==> (#[trigger] rows@[i])@.len() >= 1 && rows@[i]@[0] is Some,
{
    regex::Regex::new(pattern).ok().map(
        |re|
            re.captures_iter(text).map(
                |c| c.iter().map(|m| m.map(|m| m.as_str().to_string())).collect(),
            ).collect(),
    )
}

/// `regex::Regex::new` then `Regex::split`: `None` when the pattern does not
/// compile, else the text between matches. Claimed beyond the names: there
/// is one piece more than there are matches (the split iterator always
/// yields the remainder after the last match).
#[verifier::external_body]
pub(crate) fn regex_split(pattern: &str, text: &str) -> (r: Option<Vec<String>>)
    ensures
        r is Some <==> regex_compiles(pattern@),
        r matches Some(ps) ==> strs_view(ps@) == regex_pieces_of(pattern@, text@),
        r matches Some(ps) ==> ps@.len() == regex_captures_of(pattern@, text@).len() + 1,
{
    regex::Regex::new(pattern).ok().map(|re| re.split(text).map(|p| p.to_string()).collect())
}

} // verus!
