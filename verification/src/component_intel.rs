//! Component intelligence: WordPress.org metadata per detected plugin/theme
//! and the version comparison used to flag outdated components.
//!
//! Versions are read as dot-separated numeric parts (a leading `v` and any
//! suffix after the first character that is neither a digit nor a dot are
//! ignored) and compared part by part, missing parts counting as zero.

use std::cmp::Ordering;
use vstd::prelude::*;

use crate::common::{has_char, strip_all_prefix, strip_all_prefix_exec};
use crate::text::{
    all_digits, chars_of, digits_value, is_ascii_digit, is_digit, parse_decimal, slice_chars,
    trim, trim_chars, u64_to_i64,
};

verus! {

// ─── Reading version parts ──────────────────────────────────────────────────

pub open spec fn is_ver_char(c: char) -> bool {
    is_digit(c) || c == '.'
}

/// Length of the leading run of digits and dots.
pub open spec fn ver_prefix_len(s: Seq<char>) -> nat
    decreases s.len(),
{
    if s.len() > 0 && is_ver_char(s[0]) {
        1 + ver_prefix_len(s.drop_first())
    } else {
        0
    }
}

/// Length of the leading run of chars other than `.`.
pub open spec fn seg_len(s: Seq<char>) -> nat
    decreases s.len(),
{
    if s.len() > 0 && s[0] != '.' {
        1 + seg_len(s.drop_first())
    } else {
        0
    }
}

/// `seg.parse::<i64>().unwrap_or(0)` for an all-digit segment.
pub open spec fn part_value(seg: Seq<char>) -> i64 {
    if digits_value(seg) <= 9223372036854775807 {
        digits_value(seg) as i64
    } else {
        0
    }
}

/// The values of the non-empty `.`-separated segments of `s`.
pub open spec fn dot_parts(s: Seq<char>) -> Seq<i64>
    decreases s.len(),
{
    if s.len() == 0 {
        seq![]
    } else {
        let k = seg_len(s);
        let rest = if k < s.len() {
            s.skip((k + 1) as int)
        } else {
            seq![]
        };
        let head = if k > 0 {
            seq![part_value(s.take(k as int))]
        } else {
            seq![]
        };
        head + dot_parts(rest)
    }
}

/// What `parse_parts` returns for a version string.
pub open spec fn spec_parse_parts(v: Seq<char>) -> Seq<i64> {
    let cleaned = strip_all_prefix(trim(v), seq!['v']);
    if cleaned.len() == 0 || cleaned == seq!['*'] {
        seq![]
    } else {
        dot_parts(cleaned.take(ver_prefix_len(cleaned) as int))
    }
}

pub proof fn lemma_ver_prefix(s: Seq<char>, i: int)
    requires
        0 <= i <= s.len(),
        forall|j: int| 0 <= j < i ==> is_ver_char(#[trigger] s[j]),
    ensures
        ver_prefix_len(s) == i + ver_prefix_len(s.skip(i)),
    decreases i,
{
    if i > 0 {
        lemma_ver_prefix(s.drop_first(), i - 1);
        assert(s.drop_first().skip(i - 1) =~= s.skip(i));
    } else {
        assert(s.skip(0) =~= s);
    }
}

pub proof fn lemma_seg_len(s: Seq<char>, i: int)
    requires
        0 <= i <= s.len(),
        forall|j: int| 0 <= j < i ==> #[trigger] s[j] != '.',
    ensures
        seg_len(s) == i + seg_len(s.skip(i)),
    decreases i,
{
    if i > 0 {
        lemma_seg_len(s.drop_first(), i - 1);
        assert(s.drop_first().skip(i - 1) =~= s.skip(i));
    } else {
        assert(s.skip(0) =~= s);
    }
}

/// The leading run of digits and dots of `v`.
pub fn ver_prefix(v: &[char]) -> (r: Vec<char>)
    ensures
        r@ == v@.take(ver_prefix_len(v@) as int),
{
    let mut i: usize = 0;
    while i < v.len() && (is_ascii_digit(v[i]) || v[i] == '.')
        invariant
            i <= v@.len(),
            forall|j: int| 0 <= j < i ==> is_ver_char(#[trigger] v@[j]),
        decreases v@.len() - i,
    {
        i = i + 1;
    }
    proof {
        lemma_ver_prefix(v@, i as int);
        assert(ver_prefix_len(v@.skip(i as int)) == 0);
        assert(v@.subrange(0, i as int) =~= v@.take(i as int));
    }
    slice_chars(v, 0, i)
}

/// Value of one all-digit segment (`0` when it does not fit in `i64`).
fn segment_value(seg: &[char]) -> (r: i64)
    requires
        all_digits(seg@),
        seg@.len() > 0,
    ensures
        r == part_value(seg@),
{
    match parse_decimal(seg, 9223372036854775807u64) {
        Some(x) => u64_to_i64(x),
        None => 0,
    }
}

/// Splits a digits-and-dots run into its numeric parts.
fn dot_parts_exec(p: &[char]) -> (r: Vec<i64>)
    requires
        forall|j: int| 0 <= j < p@.len() ==> is_ver_char(#[trigger] p@[j]),
    ensures
        r@ == dot_parts(p@),
{
    let n = p.len();
    let mut out: Vec<i64> = Vec::new();
    let mut start: usize = 0;
    let mut i: usize = 0;
    proof {
        assert(p@.skip(0) =~= p@);
    }
    while i < n
        invariant
            start <= i <= n,
            n == p@.len(),
            forall|j: int| 0 <= j < p@.len() ==> is_ver_char(#[trigger] p@[j]),
            forall|j: int| start <= j < i ==> #[trigger] p@[j] != '.',
            out@ + dot_parts(p@.skip(start as int)) == dot_parts(p@),
        decreases n - i,
    {
        if p[i] == '.' {
            let ghost t = p@.skip(start as int);
            proof {
                assert forall|j: int| 0 <= j < i - start implies #[trigger] t[j] != '.' by {
                    assert(t[j] == p@[start + j]);
                }
                lemma_seg_len(t, (i - start) as int);
                assert(t.skip((i - start) as int)[0] == '.');
                assert(seg_len(t) == i - start);
                assert(t.skip(i - start + 1) =~= p@.skip(i + 1));
                assert(t.take((i - start) as int) =~= p@.subrange(start as int, i as int));
            }
            if i > start {
                let seg = slice_chars(p, start, i);
                proof {
                    assert forall|j: int| 0 <= j < seg@.len() implies is_digit(#[trigger] seg@[j]) by {
                        assert(seg@[j] == p@[start + j]);
                        assert(is_ver_char(p@[start + j]));
                    }
                }
                let val = segment_value(seg.as_slice());
                out.push(val);
                proof {
                    assert(out@ + dot_parts(p@.skip(i + 1)) =~= (out@.drop_last() + seq![val])
                        + dot_parts(p@.skip(i + 1)));
                }
            }
            start = i + 1;
        }
        i = i + 1;
    }
    if start < n {
        let ghost t = p@.skip(start as int);
        proof {
            assert forall|j: int| 0 <= j < n - start implies #[trigger] t[j] != '.' by {
                assert(t[j] == p@[start + j]);
            }
            lemma_seg_len(t, (n - start) as int);
            assert(seg_len(t.skip((n - start) as int)) == 0);
            assert(t.take((n - start) as int) =~= p@.subrange(start as int, n as int));
            assert(dot_parts(seq![]) =~= Seq::<i64>::empty());
        }
        let seg = slice_chars(p, start, n);
        proof {
            assert forall|j: int| 0 <= j < seg@.len() implies is_digit(#[trigger] seg@[j]) by {
                assert(seg@[j] == p@[start + j]);
                assert(is_ver_char(p@[start + j]));
            }
        }
        let val = segment_value(seg.as_slice());
        let ghost before = out@;
        out.push(val);
        proof {
            assert(dot_parts(t) =~= seq![val]);
            assert(out@ =~= before + dot_parts(t));
        }
    } else {
        proof {
            assert(p@.skip(start as int) =~= Seq::<char>::empty());
            assert(out@ + dot_parts(Seq::<char>::empty()) =~= out@);
        }
    }
    out
}

/// Numeric parts of a version string: `"v1.2.3-beta"` → `[1, 2, 3]`;
/// empty for `""` and `"*"`.
pub fn parse_parts(v: &str) -> (r: Vec<i64>)
    ensures
        r@ == spec_parse_parts(v@),
{
    let raw = chars_of(v);
    let t = trim_chars(raw.as_slice());
    let mut vee: Vec<char> = Vec::new();
    vee.push('v');
    let cleaned = strip_all_prefix_exec(t.as_slice(), vee.as_slice());
    proof {
        assert(vee@ =~= seq!['v']);
    }
    if cleaned.len() == 0 || (cleaned.len() == 1 && cleaned[0] == '*') {
        proof {
            if cleaned@.len() == 1 && cleaned@[0] == '*' {
                assert(cleaned@ =~= seq!['*']);
            }
        }
        return Vec::new();
    }
    proof {
        if cleaned@ == seq!['*'] {
            assert(cleaned@[0] == '*');
        }
    }
    let pre = ver_prefix(cleaned.as_slice());
    proof {
        lemma_ver_prefix_chars(cleaned@);
        assert forall|j: int| 0 <= j < pre@.len() implies is_ver_char(#[trigger] pre@[j]) by {
            assert(pre@[j] == cleaned@[j]);
        }
    }
    dot_parts_exec(pre.as_slice())
}

pub proof fn lemma_ver_prefix_chars(s: Seq<char>)
    ensures
        ver_prefix_len(s) <= s.len(),
        forall|j: int| 0 <= j < ver_prefix_len(s) ==> is_ver_char(#[trigger] s[j]),
    decreases s.len(),
{
    if s.len() > 0 && is_ver_char(s[0]) {
        lemma_ver_prefix_chars(s.drop_first());
        assert forall|j: int| 0 <= j < ver_prefix_len(s) implies is_ver_char(#[trigger] s[j]) by {
            if j > 0 {
                assert(s[j] == s.drop_first()[j - 1]);
            }
        }
    }
}

// ─── Comparing parts ────────────────────────────────────────────────────────

/// Part `i`, or `0` past the end (missing parts count as zero).
pub open spec fn part_at(p: Seq<i64>, i: int) -> int {
    if 0 <= i < p.len() {
        p[i] as int
    } else {
        0
    }
}

pub open spec fn max_len(a: Seq<i64>, b: Seq<i64>) -> int {
    if a.len() >= b.len() {
        a.len() as int
    } else {
        b.len() as int
    }
}

/// -1 / 0 / 1 comparison of parts `i..n`.
pub open spec fn order_from(a: Seq<i64>, b: Seq<i64>, i: int, n: int) -> int
    decreases n - i,
{
    if i >= n {
        0
    } else if part_at(a, i) < part_at(b, i) {
        -1
    } else if part_at(a, i) > part_at(b, i) {
        1
    } else {
        order_from(a, b, i + 1, n)
    }
}

/// -1 / 0 / 1 comparison of two part lists, zero-padded to equal length.
pub open spec fn parts_order(a: Seq<i64>, b: Seq<i64>) -> int {
    order_from(a, b, 0, max_len(a, b))
}

/// Compares two part lists: -1, 0 or 1.
pub fn compare_parts(a: &Vec<i64>, b: &Vec<i64>) -> (r: i8)
    ensures
        r == parts_order(a@, b@),
{
    let n = if a.len() >= b.len() { a.len() } else { b.len() };
    let mut i: usize = 0;
    while i < n
        invariant
            i <= n,
            n == max_len(a@, b@),
            order_from(a@, b@, 0, n as int) == order_from(a@, b@, i as int, n as int),
        decreases n - i,
    {
        let x: i64 = if i < a.len() { a[i] } else { 0 };
        let y: i64 = if i < b.len() { b[i] } else { 0 };
        if x < y {
            return -1;
        }
        if x > y {
            return 1;
        }
        i = i + 1;
    }
    0
}

pub proof fn lemma_order_past_end(a: Seq<i64>, b: Seq<i64>, i: int, n: int)
    requires
        i >= max_len(a, b),
    ensures
        order_from(a, b, i, n) == 0,
    decreases n - i,
{
    if i < n {
        lemma_order_past_end(a, b, i + 1, n);
    }
}

/// Padding with zero parts never changes the comparison.
pub proof fn lemma_order_extend(a: Seq<i64>, b: Seq<i64>, i: int, n: int, m: int)
    requires
        0 <= i,
        n >= max_len(a, b),
        m >= max_len(a, b),
    ensures
        order_from(a, b, i, n) == order_from(a, b, i, m),
    decreases max_len(a, b) - i,
{
    if i >= max_len(a, b) {
        lemma_order_past_end(a, b, i, n);
        lemma_order_past_end(a, b, i, m);
    } else {
        lemma_order_extend(a, b, i + 1, n, m);
    }
}

pub proof fn lemma_order_antisym(a: Seq<i64>, b: Seq<i64>, i: int, n: int)
    ensures
        order_from(a, b, i, n) == -order_from(b, a, i, n),
    decreases n - i,
{
    if i < n {
        lemma_order_antisym(a, b, i + 1, n);
    }
}

pub proof fn lemma_order_refl(a: Seq<i64>, i: int, n: int)
    ensures
        order_from(a, a, i, n) == 0,
    decreases n - i,
{
    if i < n {
        lemma_order_refl(a, i + 1, n);
    }
}

pub proof fn lemma_order_trans(a: Seq<i64>, b: Seq<i64>, c: Seq<i64>, i: int, n: int)
    ensures
        order_from(a, b, i, n) == 0 ==> order_from(a, c, i, n) == order_from(b, c, i, n),
        order_from(b, c, i, n) == 0 ==> order_from(a, c, i, n) == order_from(a, b, i, n),
        order_from(a, b, i, n) == -1 && order_from(b, c, i, n) == -1 ==> order_from(a, c, i, n)
            == -1,
        order_from(a, b, i, n) == 1 && order_from(b, c, i, n) == 1 ==> order_from(a, c, i, n)
            == 1,
    decreases n - i,
{
    if i < n {
        lemma_order_trans(a, b, c, i + 1, n);
    }
}

pub open spec fn max3(a: Seq<i64>, b: Seq<i64>, c: Seq<i64>) -> int {
    let m = max_len(a, b);
    if m >= c.len() {
        m
    } else {
        c.len() as int
    }
}

/// Part-list comparison is antisymmetric, reflexive and transitive.
pub proof fn lemma_parts_order_laws(a: Seq<i64>, b: Seq<i64>, c: Seq<i64>)
    ensures
        parts_order(a, b) == -parts_order(b, a),
        parts_order(a, a) == 0,
        parts_order(a, b) == 0 ==> parts_order(a, c) == parts_order(b, c),
        parts_order(a, b) == -1 && parts_order(b, c) == -1 ==> parts_order(a, c) == -1,
        parts_order(a, b) == 1 && parts_order(b, c) == 1 ==> parts_order(a, c) == 1,
        -1 <= parts_order(a, b) <= 1,
{
    lemma_order_antisym(a, b, 0, max_len(a, b));
    assert(max_len(a, b) == max_len(b, a));
    lemma_order_refl(a, 0, max_len(a, a));
    let n = max3(a, b, c);
    lemma_order_extend(a, b, 0, max_len(a, b), n);
    lemma_order_extend(b, c, 0, max_len(b, c), n);
    lemma_order_extend(a, c, 0, max_len(a, c), n);
    lemma_order_trans(a, b, c, 0, n);
    lemma_order_range(a, b, 0, max_len(a, b));
}

pub proof fn lemma_order_range(a: Seq<i64>, b: Seq<i64>, i: int, n: int)
    ensures
        -1 <= order_from(a, b, i, n) <= 1,
    decreases n - i,
{
    if i < n {
        lemma_order_range(a, b, i + 1, n);
    }
}

// ─── version_cmp ────────────────────────────────────────────────────────────

/// The `Ordering` of a -1 / 0 / 1 comparison.
pub open spec fn ordering_of(x: int) -> Ordering {
    if x < 0 {
        Ordering::Less
    } else if x > 0 {
        Ordering::Greater
    } else {
        Ordering::Equal
    }
}

pub open spec fn reverse_ordering(o: Ordering) -> Ordering {
    match o {
        Ordering::Less => Ordering::Greater,
        Ordering::Equal => Ordering::Equal,
        Ordering::Greater => Ordering::Less,
    }
}

/// What `version_cmp` returns: `None` when either side has no numeric parts.
pub open spec fn version_cmp_spec(a: Seq<char>, b: Seq<char>) -> Option<Ordering> {
    let pa = spec_parse_parts(a);
    let pb = spec_parse_parts(b);
    if pa.len() == 0 || pb.len() == 0 {
        None
    } else {
        Some(ordering_of(parts_order(pa, pb)))
    }
}

pub open spec fn ordering_of_i8(x: i8) -> Ordering {
    if x < 0 {
        Ordering::Less
    } else if x > 0 {
        Ordering::Greater
    } else {
        Ordering::Equal
    }
}

pub fn ordering_from(x: i8) -> (o: Ordering)
    ensures
        o == ordering_of_i8(x),
{
    if x < 0 {
        Ordering::Less
    } else if x > 0 {
        Ordering::Greater
    } else {
        Ordering::Equal
    }
}

/// Compares installed vs. latest version; `None` when either is unparsable.
pub fn version_cmp(a: &str, b: &str) -> (r: Option<Ordering>)
    ensures
        r == version_cmp_spec(a@, b@),
{
    let pa = parse_parts(a);
    let pb = parse_parts(b);
    if pa.len() == 0 || pb.len() == 0 {
        return None;
    }
    Some(ordering_from(compare_parts(&pa, &pb)))
}

/// Swapping the arguments of `version_cmp` reverses the answer.
pub proof fn version_cmp_antisymmetric(a: Seq<char>, b: Seq<char>)
    ensures
        version_cmp_spec(a, b) == match version_cmp_spec(b, a) {
            Some(o) => Some(reverse_ordering(o)),
            None => None,
        },
{
    lemma_parts_order_laws(spec_parse_parts(a), spec_parse_parts(b), spec_parse_parts(a));
}

/// A parsable version compares equal to itself.
pub proof fn version_cmp_reflexive(a: Seq<char>)
    requires
        spec_parse_parts(a).len() > 0,
    ensures
        version_cmp_spec(a, a) == Some(Ordering::Equal),
{
    lemma_parts_order_laws(spec_parse_parts(a), spec_parse_parts(a), spec_parse_parts(a));
}

/// `version_cmp` orders versions transitively.
pub proof fn version_cmp_transitive(a: Seq<char>, b: Seq<char>, c: Seq<char>)
    ensures
        version_cmp_spec(a, b) == Some(Ordering::Less) && version_cmp_spec(b, c) == Some(
            Ordering::Less,
        ) ==> version_cmp_spec(a, c) == Some(Ordering::Less),
        version_cmp_spec(a, b) == Some(Ordering::Equal) && version_cmp_spec(b, c) is Some
            ==> version_cmp_spec(a, c) == version_cmp_spec(b, c),
{
    lemma_parts_order_laws(spec_parse_parts(a), spec_parse_parts(b), spec_parse_parts(c));
    lemma_parts_order_laws(spec_parse_parts(b), spec_parse_parts(c), spec_parse_parts(a));
}

} // verus!
