//! Severity vocabulary of the Attack Surface Explorer: free-form ratings are
//! mapped onto `critical` / `high` / `medium` / `low` / `informational`, which
//! are ranked 5..1 (`none` = 0).

use vstd::prelude::*;

use crate::text::{
    chars_eq, chars_of, contains, contains_chars, lower_chars, str_eq, str_to_lowercase, trim,
    trim_chars,
};

verus! {

/// The five canonical severities.
pub open spec fn is_canonical_sev(s: Seq<char>) -> bool {
    s == "critical"@ || s == "high"@ || s == "medium"@ || s == "low"@ || s == "informational"@
}

/// What `sev` returns for a free-form rating.
pub open spec fn sev_spec(s: Seq<char>) -> Seq<char> {
    let l = str_to_lowercase(trim(s));
    if l == "info"@ || l == "informational"@ || l == "none"@ {
        "informational"@
    } else if contains(l, "critical"@) {
        "critical"@
    } else if contains(l, "high"@) {
        "high"@
    } else if contains(l, "medium"@) {
        "medium"@
    } else if contains(l, "low"@) {
        "low"@
    } else {
        "informational"@
    }
}

fn eq_lit(v: &[char], s: &str) -> (b: bool)
    ensures
        b == (v@ == s@),
{
    let w = chars_of(s);
    chars_eq(v, w.as_slice())
}

fn has_lit(v: &[char], s: &str) -> (b: bool)
    ensures
        b == contains(v@, s@),
{
    let w = chars_of(s);
    contains_chars(v, w.as_slice())
}

/// Maps a free-form rating (`"HIGH"`, `"Critical (9.8)"`, `"info"`, …) to a
/// canonical severity.
pub fn sev(s: &str) -> (r: &'static str)
    ensures
        r@ == sev_spec(s@),
{
    let t = trim_chars(chars_of(s).as_slice());
    let l = lower_chars(t.as_slice());
    if eq_lit(l.as_slice(), "info") || eq_lit(l.as_slice(), "informational") || eq_lit(
        l.as_slice(),
        "none",
    ) {
        "informational"
    } else if has_lit(l.as_slice(), "critical") {
        "critical"
    } else if has_lit(l.as_slice(), "high") {
        "high"
    } else if has_lit(l.as_slice(), "medium") {
        "medium"
    } else if has_lit(l.as_slice(), "low") {
        "low"
    } else {
        "informational"
    }
}

/// Rank of a canonical severity (5 = critical … 1 = informational, else 0).
pub open spec fn sev_rank_spec(s: Seq<char>) -> u8 {
    if s == "critical"@ {
        5
    } else if s == "high"@ {
        4
    } else if s == "medium"@ {
        3
    } else if s == "low"@ {
        2
    } else if s == "informational"@ {
        1
    } else {
        0
    }
}

pub fn sev_rank(s: &str) -> (r: u8)
    ensures
        r == sev_rank_spec(s@),
{
    if str_eq(s, "critical") {
        5
    } else if str_eq(s, "high") {
        4
    } else if str_eq(s, "medium") {
        3
    } else if str_eq(s, "low") {
        2
    } else if str_eq(s, "informational") {
        1
    } else {
        0
    }
}

/// Severity of a rank (0 and anything above 5 other than the five ranks → `none`).
pub open spec fn rank_sev_spec(r: u8) -> Seq<char> {
    if r == 5 {
        "critical"@
    } else if r == 4 {
        "high"@
    } else if r == 3 {
        "medium"@
    } else if r == 2 {
        "low"@
    } else if r == 1 {
        "informational"@
    } else {
        "none"@
    }
}

pub fn rank_sev(r: u8) -> (s: &'static str)
    ensures
        s@ == rank_sev_spec(r),
{
    match r {
        5 => "critical",
        4 => "high",
        3 => "medium",
        2 => "low",
        1 => "informational",
        _ => "none",
    }
}


/// `sev` always yields one of the five canonical severities.
pub proof fn sev_is_canonical(s: Seq<char>)
    ensures
        is_canonical_sev(sev_spec(s)),
        sev_rank_spec(sev_spec(s)) >= 1,
{
    reveal_strlit("critical");
    reveal_strlit("high");
    reveal_strlit("medium");
    reveal_strlit("low");
    reveal_strlit("informational");
    reveal_strlit("none");
    reveal_strlit("info");
    assert("critical"@.len() == 8 && "high"@.len() == 4 && "medium"@.len() == 6);
    assert("low"@.len() == 3 && "informational"@.len() == 13 && "none"@.len() == 4);
    assert("none"@[0] != "high"@[0]);
}

/// Ranking a canonical severity and mapping the rank back gives it again;
/// ranks order critical > high > medium > low > informational.
pub proof fn rank_round_trip(s: Seq<char>)
    requires
        is_canonical_sev(s),
    ensures
        rank_sev_spec(sev_rank_spec(s)) == s,
        1 <= sev_rank_spec(s) <= 5,
        sev_rank_spec("critical"@) > sev_rank_spec("high"@),
        sev_rank_spec("high"@) > sev_rank_spec("medium"@),
        sev_rank_spec("medium"@) > sev_rank_spec("low"@),
        sev_rank_spec("low"@) > sev_rank_spec("informational"@),
{
    reveal_strlit("critical");
    reveal_strlit("high");
    reveal_strlit("medium");
    reveal_strlit("low");
    reveal_strlit("informational");
    reveal_strlit("none");
    reveal_strlit("info");
    assert("critical"@.len() == 8 && "high"@.len() == 4 && "medium"@.len() == 6);
    assert("low"@.len() == 3 && "informational"@.len() == 13 && "none"@.len() == 4);
    assert("none"@[0] != "high"@[0]);
}

/// Mapping a rank to a severity and back gives the rank (for ranks 0..=5).
pub proof fn sev_rank_of_rank_sev(r: u8)
    requires
        r <= 5,
    ensures
        sev_rank_spec(rank_sev_spec(r)) == r,
{
    reveal_strlit("critical");
    reveal_strlit("high");
    reveal_strlit("medium");
    reveal_strlit("low");
    reveal_strlit("informational");
    reveal_strlit("none");
    reveal_strlit("info");
    assert("critical"@.len() == 8 && "high"@.len() == 4 && "medium"@.len() == 6);
    assert("low"@.len() == 3 && "informational"@.len() == 13 && "none"@.len() == 4);
    assert("none"@[0] != "high"@[0]);
}

} // verus!
