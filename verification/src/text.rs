//! Character-sequence toolkit shared by every module: conversions between
//! `str`/`String` and `Vec<char>`, Unicode whitespace trimming, searching,
//! and decimal formatting/parsing. Every helper works on `Seq<char>` views.

use vstd::prelude::*;

verus! {

/// The view of an optional string.
pub open spec fn ov(o: Option<String>) -> Option<Seq<char>> {
    match o {
        Some(s) => Some(s@),
        None => None,
    }
}

// ─── Conversions (std) ──────────────────────────────────────────────────────

/// `str::chars` collected into a vector: the vector holds the string's chars.
#[verifier::external_body]
pub(crate) fn chars_of(s: &str) -> (v: Vec<char>)
    ensures
        v@ == s@,
{
    s.chars().collect()
}

/// `String: FromIterator<char>`: the string holds exactly the given chars.
#[verifier::external_body]
pub(crate) fn string_of(v: &[char]) -> (s: String)
    ensures
        s@ == v@,
{
    v.iter().collect()
}

/// The result of `str::to_lowercase` (full Unicode case mapping).
pub uninterp spec fn str_to_lowercase(s: Seq<char>) -> Seq<char>;

/// ASCII char (`char::is_ascii`).
pub open spec fn is_ascii_char(c: char) -> bool {
    (c as u32) < 128
}

pub open spec fn all_ascii(s: Seq<char>) -> bool {
    forall|i: int| 0 <= i < s.len() ==> is_ascii_char(#[trigger] s[i])
}

/// `char::to_ascii_lowercase`.
pub open spec fn ascii_lower(c: char) -> char {
    if 'A' <= c && c <= 'Z' {
        ((c as u32) + 32) as char
    } else {
        c
    }
}

/// `char::to_ascii_uppercase`.
pub open spec fn ascii_upper(c: char) -> char {
    if 'a' <= c && c <= 'z' {
        ((c as u32) - 32) as char
    } else {
        c
    }
}

/// `str::eq_ignore_ascii_case`: same length, equal after ASCII lowercasing.
pub open spec fn eq_ignore_ascii_case(a: Seq<char>, b: Seq<char>) -> bool {
    a.len() == b.len() && forall|i: int|
        0 <= i < a.len() ==> ascii_lower(#[trigger] a[i]) == ascii_lower(b[i])
}

fn lower_code(c: char) -> (r: u32)
    ensures
        r == ascii_lower(c) as u32,
{
    let x = c as u32;
    if 65 <= x && x <= 90 {
        x + 32
    } else {
        x
    }
}

/// Char-vector form of `str::eq_ignore_ascii_case`.
pub fn chars_eq_ignore_ascii_case(a: &[char], b: &[char]) -> (r: bool)
    ensures
        r == eq_ignore_ascii_case(a@, b@),
{
    if a.len() != b.len() {
        return false;
    }
    let mut i: usize = 0;
    while i < a.len()
        invariant
            i <= a@.len(),
            a@.len() == b@.len(),
            forall|j: int| 0 <= j < i ==> ascii_lower(#[trigger] a@[j]) == ascii_lower(b@[j]),
        decreases a@.len() - i,
    {
        if lower_code(a[i]) != lower_code(b[i]) {
            return false;
        }
        i = i + 1;
    }
    true
}

/// `str::eq_ignore_ascii_case`.
pub fn str_eq_ignore_ascii_case(a: &str, b: &str) -> (r: bool)
    ensures
        r == eq_ignore_ascii_case(a@, b@),
{
    let x = chars_of(a);
    let y = chars_of(b);
    chars_eq_ignore_ascii_case(x.as_slice(), y.as_slice())
}

/// `str::to_lowercase`; its result is named by `str_to_lowercase`. On ASCII
/// input the documented mapping is `to_ascii_lowercase` char by char.
#[verifier::external_body]
pub(crate) fn lowercase(s: &str) -> (r: String)
    ensures
        r@ == str_to_lowercase(s@),
        all_ascii(s@) ==> r@ == s@.map_values(|c: char| ascii_lower(c)),
{
    s.to_lowercase()
}

/// The result of `str::to_uppercase` (full Unicode case mapping).
pub uninterp spec fn str_to_uppercase(s: Seq<char>) -> Seq<char>;

/// `str::to_uppercase`; its result is named by `str_to_uppercase`. On ASCII
/// input the documented mapping is `to_ascii_uppercase` char by char.
#[verifier::external_body]
pub(crate) fn uppercase(s: &str) -> (r: String)
    ensures
        r@ == str_to_uppercase(s@),
        all_ascii(s@) ==> r@ == s@.map_values(|c: char| ascii_upper(c)),
{
    s.to_uppercase()
}

/// Lowercases a char vector through `str::to_lowercase`.
pub fn lower_chars(v: &[char]) -> (r: Vec<char>)
    ensures
        r@ == str_to_lowercase(v@),
        all_ascii(v@) ==> str_to_lowercase(v@) == v@.map_values(|c: char| ascii_lower(c)),
{
    let s = string_of(v);
    let l = lowercase(s.as_str());
    chars_of(l.as_str())
}

/// Owned copy of a literal.
pub fn lit(s: &str) -> (r: String)
    ensures
        r@ == s@,
{
    s.to_owned()
}

// ─── Whitespace / trimming ─────────────────────────────────────────────────

/// Unicode `White_Space`, exactly the set `char::is_whitespace` accepts.
pub open spec fn is_ws(c: char) -> bool {
    ||| ('\t' <= c && c <= '\r')
    ||| c == ' '
    ||| c == '\u{85}'
    ||| c == '\u{a0}'
    ||| c == '\u{1680}'
    ||| ('\u{2000}' <= c && c <= '\u{200a}')
    ||| c == '\u{2028}'
    ||| c == '\u{2029}'
    ||| c == '\u{202f}'
    ||| c == '\u{205f}'
    ||| c == '\u{3000}'
}

pub fn is_whitespace(c: char) -> (b: bool)
    ensures
        b == is_ws(c),
{
    ('\t' <= c && c <= '\r') || c == ' ' || c == '\u{85}' || c == '\u{a0}' || c == '\u{1680}'
        || ('\u{2000}' <= c && c <= '\u{200a}') || c == '\u{2028}' || c == '\u{2029}'
        || c == '\u{202f}' || c == '\u{205f}' || c == '\u{3000}'
}

/// Number of leading whitespace chars.
pub open spec fn lead_ws(s: Seq<char>) -> nat
    decreases s.len(),
{
    if s.len() > 0 && is_ws(s[0]) {
        1 + lead_ws(s.drop_first())
    } else {
        0
    }
}

/// Number of trailing whitespace chars.
pub open spec fn trail_ws(s: Seq<char>) -> nat
    decreases s.len(),
{
    if s.len() > 0 && is_ws(s.last()) {
        1 + trail_ws(s.drop_last())
    } else {
        0
    }
}

pub open spec fn trim_start(s: Seq<char>) -> Seq<char> {
    s.skip(lead_ws(s) as int)
}

pub open spec fn trim_end(s: Seq<char>) -> Seq<char> {
    s.take(s.len() - trail_ws(s))
}

/// `str::trim`: strip leading and trailing whitespace.
pub open spec fn trim(s: Seq<char>) -> Seq<char> {
    trim_end(trim_start(s))
}

pub proof fn lemma_lead_ws(s: Seq<char>, i: int)
    requires
        0 <= i <= s.len(),
        forall|j: int| 0 <= j < i ==> is_ws(#[trigger] s[j]),
    ensures
        lead_ws(s) == i + lead_ws(s.skip(i)),
    decreases i,
{
    if i > 0 {
        assert(s.skip(1) =~= s.drop_first());
        lemma_lead_ws(s.drop_first(), i - 1);
        assert(s.drop_first().skip(i - 1) =~= s.skip(i));
    } else {
        assert(s.skip(0) =~= s);
    }
}

pub proof fn lemma_lead_ws_bound(s: Seq<char>)
    ensures
        lead_ws(s) <= s.len(),
        forall|j: int| 0 <= j < lead_ws(s) ==> is_ws(#[trigger] s[j]),
        lead_ws(s) < s.len() ==> !is_ws(s[lead_ws(s) as int]),
    decreases s.len(),
{
    if s.len() > 0 && is_ws(s[0]) {
        lemma_lead_ws_bound(s.drop_first());
        assert forall|j: int| 0 <= j < lead_ws(s) implies is_ws(#[trigger] s[j]) by {
            if j > 0 {
                assert(s[j] == s.drop_first()[j - 1]);
            }
        }
    }
}

pub proof fn lemma_trail_ws(s: Seq<char>, i: int)
    requires
        0 <= i <= s.len(),
        forall|j: int| s.len() - i <= j < s.len() ==> is_ws(#[trigger] s[j]),
    ensures
        trail_ws(s) == i + trail_ws(s.take(s.len() - i)),
    decreases i,
{
    if i > 0 {
        assert(s.take(s.len() - 1) =~= s.drop_last());
        assert forall|j: int|
            s.drop_last().len() - (i - 1) <= j < s.drop_last().len() implies is_ws(
            #[trigger] s.drop_last()[j],
        ) by {
            assert(s.drop_last()[j] == s[j]);
        }
        lemma_trail_ws(s.drop_last(), i - 1);
        assert(s.drop_last().take(s.drop_last().len() - (i - 1)) =~= s.take(s.len() - i));
    } else {
        assert(s.take(s.len() as int) =~= s);
    }
}

pub proof fn lemma_trail_ws_bound(s: Seq<char>)
    ensures
        trail_ws(s) <= s.len(),
        trail_ws(s) < s.len() ==> !is_ws(s[s.len() - trail_ws(s) - 1]),
    decreases s.len(),
{
    if s.len() > 0 && is_ws(s.last()) {
        lemma_trail_ws_bound(s.drop_last());
    }
}

/// Trimming twice is trimming once.
pub proof fn lemma_trim_idempotent(s: Seq<char>)
    ensures
        trim(trim(s)) == trim(s),
{
    let u = trim_start(s);
    let t = trim(s);
    lemma_lead_ws_bound(s);
    lemma_trail_ws_bound(u);
    if t.len() > 0 {
        assert(t[0] == u[0]);
        assert(t.last() == u[u.len() - trail_ws(u) - 1]);
        assert(lead_ws(t) == 0);
        assert(trail_ws(t) == 0);
        assert(t.skip(0) =~= t);
        assert(t.take(t.len() as int) =~= t);
    } else {
        assert(trim(t) =~= t);
    }
}

/// `str::trim` on a char slice.
pub fn trim_chars(v: &[char]) -> (r: Vec<char>)
    ensures
        r@ == trim(v@),
{
    let n = v.len();
    let mut i: usize = 0;
    while i < n && is_whitespace(v[i])
        invariant
            0 <= i <= n,
            n == v@.len(),
            forall|j: int| 0 <= j < i ==> is_ws(#[trigger] v@[j]),
        decreases n - i,
    {
        i = i + 1;
    }
    proof {
        lemma_lead_ws(v@, i as int);
        assert(lead_ws(v@.skip(i as int)) == 0);
    }
    let ghost t = v@.skip(i as int);
    let mut e: usize = n;
    while e > i && is_whitespace(v[e - 1])
        invariant
            i <= e <= n,
            n == v@.len(),
            t == v@.skip(i as int),
            forall|j: int| e <= j < n ==> is_ws(#[trigger] v@[j]),
        decreases e,
    {
        e = e - 1;
    }
    proof {
        assert forall|j: int| t.len() - (n - e) <= j < t.len() implies is_ws(#[trigger] t[j]) by {
            assert(t[j] == v@[j + i]);
        }
        lemma_trail_ws(t, (n - e) as int);
        if e > i {
            assert(t.take(t.len() - (n - e)).last() == v@[e - 1]);
        }
        assert(trail_ws(t.take(t.len() - (n - e))) == 0);
    }
    let mut out: Vec<char> = Vec::new();
    let mut k: usize = i;
    while k < e
        invariant
            i <= k <= e <= n,
            n == v@.len(),
            out@ =~= v@.subrange(i as int, k as int),
        decreases e - k,
    {
        out.push(v[k]);
        k = k + 1;
    }
    proof {
        assert(trim(v@) =~= v@.subrange(i as int, e as int));
    }
    out
}

/// `str::trim` producing an owned `String`.
pub fn trim_str(s: &str) -> (r: String)
    ensures
        r@ == trim(s@),
{
    let v = chars_of(s);
    let t = trim_chars(v.as_slice());
    string_of(t.as_slice())
}

// ─── Prefix / suffix / search ──────────────────────────────────────────────

pub open spec fn starts_with(s: Seq<char>, p: Seq<char>) -> bool {
    p.len() <= s.len() && s.take(p.len() as int) == p
}

pub open spec fn ends_with(s: Seq<char>, p: Seq<char>) -> bool {
    p.len() <= s.len() && s.skip(s.len() - p.len()) == p
}

/// `p` occurs in `s` starting at index `i`.
pub open spec fn match_at(s: Seq<char>, p: Seq<char>, i: int) -> bool {
    0 <= i && i + p.len() <= s.len() && s.subrange(i, i + p.len()) == p
}

/// `str::contains` with a string pattern.
pub open spec fn contains(s: Seq<char>, p: Seq<char>) -> bool {
    exists|i: int| match_at(s, p, i)
}

/// Index of the first occurrence of `p` in `s` at or after `from`.
pub open spec fn is_first_match_from(s: Seq<char>, p: Seq<char>, from: int, i: int) -> bool {
    &&& from <= i
    &&& match_at(s, p, i)
    &&& forall|j: int| from <= j < i ==> !match_at(s, p, j)
}

pub fn starts_with_at(v: &[char], at: usize, p: &[char]) -> (b: bool)
    requires
        at <= v@.len(),
    ensures
        b == match_at(v@, p@, at as int),
{
    if p.len() > v.len() - at {
        return false;
    }
    let n: usize = v.len();
    let m: usize = p.len();
    let mut k: usize = 0;
    while k < m
        invariant
            k <= m,
            m == p@.len(),
            n == v@.len(),
            at <= n,
            at + m <= n,
            forall|j: int| 0 <= j < k ==> v@[at + j] == p@[j],
        decreases m - k,
    {
        if v[at + k] != p[k] {
            assert(v@.subrange(at as int, at + p@.len())[k as int] != p@[k as int]);
            return false;
        }
        k = k + 1;
    }
    assert(v@.subrange(at as int, at + p@.len()) =~= p@);
    true
}

pub fn has_prefix(v: &[char], p: &[char]) -> (b: bool)
    ensures
        b == starts_with(v@, p@),
{
    let b = starts_with_at(v, 0, p);
    proof {
        if b {
            assert(v@.take(p@.len() as int) =~= v@.subrange(0, p@.len() as int));
        } else if p@.len() <= v@.len() {
            assert(v@.take(p@.len() as int) =~= v@.subrange(0, p@.len() as int));
        }
    }
    b
}

pub fn has_suffix(v: &[char], p: &[char]) -> (b: bool)
    ensures
        b == ends_with(v@, p@),
{
    if p.len() > v.len() {
        return false;
    }
    let at = v.len() - p.len();
    let b = starts_with_at(v, at, p);
    proof {
        assert(v@.skip(at as int) =~= v@.subrange(at as int, at + p@.len()));
    }
    b
}

/// `str::find` from position `from`: the first occurrence at or after `from`.
pub fn find_from(v: &[char], p: &[char], from: usize) -> (r: Option<usize>)
    requires
        from <= v@.len(),
    ensures
        r matches Some(i) ==> is_first_match_from(v@, p@, from as int, i as int),
        r is None ==> forall|j: int| from <= j ==> !match_at(v@, p@, j),
{
    let n = v.len();
    let mut i: usize = from;
    loop
        invariant
            from <= i <= n,
            n == v@.len(),
            forall|j: int| from <= j < i ==> !match_at(v@, p@, j),
        decreases n - i,
    {
        if starts_with_at(v, i, p) {
            return Some(i);
        }
        if i == n {
            return None;
        }
        i = i + 1;
    }
}

pub fn contains_chars(v: &[char], p: &[char]) -> (b: bool)
    ensures
        b == contains(v@, p@),
{
    match find_from(v, p, 0) {
        Some(_) => true,
        None => false,
    }
}

/// `str::contains` with a string pattern, on `&str` arguments.
pub fn str_contains(s: &str, p: &str) -> (b: bool)
    ensures
        b == contains(s@, p@),
{
    let v = chars_of(s);
    let q = chars_of(p);
    contains_chars(v.as_slice(), q.as_slice())
}

/// Character-slice equality.
pub fn chars_eq(a: &[char], b: &[char]) -> (r: bool)
    ensures
        r == (a@ == b@),
{
    if a.len() != b.len() {
        return false;
    }
    let r = starts_with_at(a, 0, b);
    proof {
        assert(a@.subrange(0, b@.len() as int) =~= a@);
    }
    r
}

/// String equality on `&str`.
pub fn str_eq(a: &str, b: &str) -> (r: bool)
    ensures
        r == (a@ == b@),
{
    let x = chars_of(a);
    let y = chars_of(b);
    chars_eq(x.as_slice(), y.as_slice())
}

/// Copy of `v[from..to]`.
pub fn slice_chars(v: &[char], from: usize, to: usize) -> (r: Vec<char>)
    requires
        from <= to <= v@.len(),
    ensures
        r@ == v@.subrange(from as int, to as int),
{
    let mut out: Vec<char> = Vec::new();
    let mut k: usize = from;
    while k < to
        invariant
            from <= k <= to <= v@.len(),
            out@ =~= v@.subrange(from as int, k as int),
        decreases to - k,
    {
        out.push(v[k]);
        k = k + 1;
    }
    out
}

/// `a ++ b`.
pub fn concat_chars(a: &[char], b: &[char]) -> (r: Vec<char>)
    ensures
        r@ == a@ + b@,
{
    let mut out = slice_chars(a, 0, a.len());
    let mut k: usize = 0;
    while k < b.len()
        invariant
            k <= b@.len(),
            out@ =~= a@ + b@.take(k as int),
        decreases b@.len() - k,
    {
        out.push(b[k]);
        k = k + 1;
    }
    proof {
        assert(b@.take(b@.len() as int) =~= b@);
        assert(a@.subrange(0, a@.len() as int) =~= a@);
    }
    out
}

/// Appends all chars of `b` to `out`.
pub fn push_all(out: &mut Vec<char>, b: &[char])
    ensures
        final(out)@ == old(out)@ + b@,
{
    let ghost start = out@;
    let mut k: usize = 0;
    while k < b.len()
        invariant
            k <= b@.len(),
            out@ =~= start + b@.take(k as int),
        decreases b@.len() - k,
    {
        out.push(b[k]);
        k = k + 1;
    }
    proof {
        assert(b@.take(b@.len() as int) =~= b@);
    }
}

/// Appends the chars of a string literal.
pub fn push_str(out: &mut Vec<char>, s: &str)
    ensures
        final(out)@ == old(out)@ + s@,
{
    let v = chars_of(s);
    push_all(out, v.as_slice());
}

// ─── Decimal numbers ───────────────────────────────────────────────────────

pub open spec fn digit_char(d: nat) -> char {
    if d == 0 { '0' } else if d == 1 { '1' } else if d == 2 { '2' } else if d == 3 { '3' }
    else if d == 4 { '4' } else if d == 5 { '5' } else if d == 6 { '6' } else if d == 7 { '7' }
    else if d == 8 { '8' } else { '9' }
}

/// Decimal rendering of a natural number, as `Display` prints it.
pub open spec fn decimal(n: nat) -> Seq<char>
    decreases n,
{
    if n < 10 {
        seq![digit_char(n)]
    } else {
        decimal(n / 10).push(digit_char(n % 10))
    }
}

/// The number a decimal digit string spells.
pub open spec fn decimal_value(s: Seq<char>) -> int
    decreases s.len(),
{
    if s.len() == 0 {
        0
    } else {
        decimal_value(s.drop_last()) * 10 + (s.last() as int - '0' as int)
    }
}

proof fn lemma_digit_char(k: nat)
    requires
        k < 10,
    ensures
        digit_char(k) as int == '0' as int + k,
{
}

/// A decimal rendering is made of ASCII digits, at least one, and spells
/// back its number.
pub proof fn lemma_decimal(n: nat)
    ensures
        decimal(n).len() >= 1,
        forall|i: int| 0 <= i < decimal(n).len() ==> '0' <= #[trigger] decimal(n)[i] <= '9',
        decimal_value(decimal(n)) == n,
    decreases n,
{
    if n >= 10 {
        lemma_decimal(n / 10);
        lemma_digit_char(n % 10);
        let d = decimal(n);
        assert(d.drop_last() =~= decimal(n / 10));
        assert(d.last() == digit_char(n % 10));
        assert(decimal_value(d) == decimal_value(d.drop_last()) * 10 + (d.last() as int - '0' as int));
        assert(decimal_value(d) == (n / 10) as int * 10 + (n % 10) as int);
        assert(n == (n / 10) * 10 + n % 10) by {
            vstd::arithmetic::div_mod::lemma_fundamental_div_mod(n as int, 10);
        }
    } else {
        lemma_digit_char(n);
        let d = decimal(n);
        assert(d.drop_last() =~= Seq::<char>::empty());
        assert(decimal_value(d.drop_last()) == 0);
        assert(decimal_value(d) == decimal_value(d.drop_last()) * 10 + (d.last() as int - '0' as int));
    }
}

/// Different numbers render differently.
pub proof fn lemma_decimal_injective(a: nat, b: nat)
    requires
        decimal(a) == decimal(b),
    ensures
        a == b,
{
    lemma_decimal(a);
    lemma_decimal(b);
}

pub fn digit_to_char(d: u64) -> (c: char)
    requires
        d < 10,
    ensures
        c == digit_char(d as nat),
{
    if d == 0 { '0' } else if d == 1 { '1' } else if d == 2 { '2' } else if d == 3 { '3' }
    else if d == 4 { '4' } else if d == 5 { '5' } else if d == 6 { '6' } else if d == 7 { '7' }
    else if d == 8 { '8' } else { '9' }
}

/// Decimal rendering of `n` (the `Display` output of an unsigned integer).
pub fn decimal_chars(n: u64) -> (r: Vec<char>)
    ensures
        r@ == decimal(n as nat),
    decreases n,
{
    if n < 10 {
        let mut v: Vec<char> = Vec::new();
        v.push(digit_to_char(n));
        v
    } else {
        let mut v = decimal_chars(n / 10);
        v.push(digit_to_char(n % 10));
        v
    }
}

pub open spec fn is_digit(c: char) -> bool {
    '0' <= c && c <= '9'
}

pub open spec fn digit_val(c: char) -> nat {
    (c as u32 - '0' as u32) as nat
}

/// Value of an all-digit sequence read in base ten.
pub open spec fn digits_value(s: Seq<char>) -> nat
    decreases s.len(),
{
    if s.len() == 0 {
        0
    } else {
        digits_value(s.drop_last()) * 10 + digit_val(s.last())
    }
}

pub open spec fn all_digits(s: Seq<char>) -> bool {
    forall|i: int| 0 <= i < s.len() ==> is_digit(#[trigger] s[i])
}

pub fn is_ascii_digit(c: char) -> (b: bool)
    ensures
        b == is_digit(c),
{
    '0' <= c && c <= '9'
}

/// Parses an unsigned decimal that must fit in `bound`: `None` when the
/// sequence is empty, holds a non-digit, or its value exceeds `bound`.
pub fn parse_decimal(v: &[char], bound: u64) -> (r: Option<u64>)
    ensures
        r matches Some(x) ==> v@.len() > 0 && all_digits(v@) && x == digits_value(v@) && x
            <= bound,
        r is None ==> !(v@.len() > 0 && all_digits(v@) && digits_value(v@) <= bound),
{
    if v.len() == 0 {
        return None;
    }
    let mut acc: u64 = 0;
    let mut i: usize = 0;
    while i < v.len()
        invariant
            i <= v@.len(),
            all_digits(v@.take(i as int)),
            acc == digits_value(v@.take(i as int)),
            acc <= bound,
        decreases v@.len() - i,
    {
        let c = v[i];
        proof {
            assert(v@.take(i + 1).drop_last() =~= v@.take(i as int));
        }
        if !is_ascii_digit(c) {
            assert(!all_digits(v@)) by {
                assert(!is_digit(v@[i as int]));
            }
            return None;
        }
        let d = (c as u32 - '0' as u32) as u64;
        if d > bound || acc > (bound - d) / 10 {
            proof {
                if all_digits(v@) {
                    lemma_digits_prefix_mono(v@, (i + 1) as int);
                    assert(digits_value(v@.take(i + 1)) == acc * 10 + d);
                    if d <= bound {
                        assert(acc * 10 + d > bound) by (nonlinear_arith)
                            requires
                                acc > (bound - d) / 10,
                                d <= bound,
                        ;
                    }
                }
            }
            return None;
        }
        proof {
            assert(acc * 10 + d <= bound) by (nonlinear_arith)
                requires
                    acc <= (bound - d) / 10,
                    d <= bound,
            ;
        }
        acc = acc * 10 + d;
        i = i + 1;
    }
    proof {
        assert(v@.take(v@.len() as int) =~= v@);
    }
    Some(acc)
}

/// What `str::parse` gives for an unsigned integer type whose maximum is
/// `bound`: an optional `+`, then one or more ASCII digits, in range.
pub open spec fn parse_unsigned_spec(s: Seq<char>, bound: nat) -> Option<nat> {
    let d = if s.len() > 0 && s[0] == '+' {
        s.drop_first()
    } else {
        s
    };
    if d.len() > 0 && all_digits(d) && digits_value(d) <= bound {
        Some(digits_value(d))
    } else {
        None
    }
}

/// `str::parse::<uN>` on a char vector, for a type whose maximum is `bound`.
pub fn parse_unsigned(v: &[char], bound: u64) -> (r: Option<u64>)
    ensures
        match r {
            Some(x) => parse_unsigned_spec(v@, bound as nat) == Some(x as nat),
            None => parse_unsigned_spec(v@, bound as nat) is None,
        },
{
    if v.len() > 0 && v[0] == '+' {
        let rest = slice_chars(v, 1, v.len());
        assert(rest@ =~= v@.drop_first());
        parse_decimal(rest.as_slice(), bound)
    } else {
        parse_decimal(v, bound)
    }
}

pub proof fn lemma_digits_prefix_mono(s: Seq<char>, k: int)
    requires
        0 <= k <= s.len(),
        all_digits(s),
    ensures
        digits_value(s.take(k)) <= digits_value(s),
    decreases s.len() - k,
{
    if k < s.len() {
        lemma_digits_prefix_mono(s, k + 1);
        assert(s.take(k + 1).drop_last() =~= s.take(k));
        assert(digits_value(s.take(k + 1)) == digits_value(s.take(k)) * 10 + digit_val(
            s.take(k + 1).last(),
        ));
    } else {
        assert(s.take(k) =~= s);
    }
}

/// Converts a value known to fit in `i64`.
pub fn u64_to_i64(x: u64) -> (r: i64)
    requires
        x <= 9223372036854775807u64,
    ensures
        r == x,
{
    x as i64
}

/// `c.to_digit(10)` for an ASCII digit.
pub fn digit_value(c: char) -> (d: u64)
    requires
        is_digit(c),
    ensures
        d == digit_val(c),
        d < 10,
{
    (c as u32 - '0' as u32) as u64
}


// ─── Splitting ─────────────────────────────────────────────────────────────

/// The pieces `str::split` yields for a single-char separator: always at
/// least one piece; consecutive separators give empty pieces.
pub open spec fn split_char(s: Seq<char>, c: char) -> Seq<Seq<char>>
    decreases s.len(),
{
    if s.len() == 0 {
        seq![seq![]]
    } else {
        let prev = split_char(s.drop_last(), c);
        if s.last() == c {
            prev.push(seq![])
        } else {
            prev.update(prev.len() - 1, prev.last().push(s.last()))
        }
    }
}

pub proof fn lemma_split_nonempty(s: Seq<char>, c: char)
    ensures
        split_char(s, c).len() >= 1,
    decreases s.len(),
{
    if s.len() > 0 {
        lemma_split_nonempty(s.drop_last(), c);
    }
}

pub open spec fn seqs_view(v: Seq<Vec<char>>) -> Seq<Seq<char>> {
    v.map_values(|w: Vec<char>| w@)
}

/// `str::split(c)` on a char vector.
pub fn split_chars(v: &[char], c: char) -> (r: Vec<Vec<char>>)
    ensures
        seqs_view(r@) == split_char(v@, c),
{
    let mut out: Vec<Vec<char>> = Vec::new();
    let mut cur: Vec<char> = Vec::new();
    let mut i: usize = 0;
    assert(seqs_view(out@).push(cur@) =~= split_char(v@.take(0), c));
    while i < v.len()
        invariant
            i <= v@.len(),
            seqs_view(out@).push(cur@) == split_char(v@.take(i as int), c),
        decreases v@.len() - i,
    {
        assert(v@.take(i + 1).drop_last() =~= v@.take(i as int));
        let ghost prev = seqs_view(out@).push(cur@);
        if v[i] == c {
            let done = cur;
            out.push(done);
            cur = Vec::new();
            assert(seqs_view(out@).push(cur@) =~= prev.push(seq![]));
        } else {
            cur.push(v[i]);
            assert(seqs_view(out@).push(cur@) =~= prev.update(
                prev.len() - 1,
                prev.last().push(v@[i as int]),
            ));
        }
        i = i + 1;
    }
    assert(v@.take(v@.len() as int) =~= v@);
    let ghost fin = seqs_view(out@).push(cur@);
    out.push(cur);
    assert(seqs_view(out@) =~= fin);
    out
}

/// `s.strip_prefix(p)`.
pub open spec fn strip_prefix(s: Seq<char>, p: Seq<char>) -> Option<Seq<char>> {
    if starts_with(s, p) {
        Some(s.skip(p.len() as int))
    } else {
        None
    }
}

pub fn strip_prefix_chars(v: &[char], p: &str) -> (r: Option<Vec<char>>)
    ensures
        match r {
            Some(x) => strip_prefix(v@, p@) == Some(x@),
            None => strip_prefix(v@, p@) is None,
        },
{
    let pc = chars_of(p);
    if has_prefix(v, pc.as_slice()) {
        let rest = slice_chars(v, pc.len(), v.len());
        assert(rest@ =~= v@.skip(p@.len() as int));
        Some(rest)
    } else {
        None
    }
}


/// `slice::join` of char sequences with a separator.
pub open spec fn join(ss: Seq<Seq<char>>, sep: Seq<char>) -> Seq<char>
    decreases ss.len(),
{
    if ss.len() == 0 {
        seq![]
    } else if ss.len() == 1 {
        ss[0]
    } else {
        join(ss.drop_last(), sep) + sep + ss.last()
    }
}

pub fn join_chars(ss: &Vec<Vec<char>>, sep: &str) -> (r: Vec<char>)
    ensures
        r@ == join(seqs_view(ss@), sep@),
{
    let ghost all = seqs_view(ss@);
    let mut out: Vec<char> = Vec::new();
    let mut i: usize = 0;
    while i < ss.len()
        invariant
            i <= ss@.len(),
            all == seqs_view(ss@),
            out@ == join(all.take(i as int), sep@),
        decreases ss@.len() - i,
    {
        assert(all.take(i + 1).drop_last() =~= all.take(i as int));
        if i > 0 {
            push_str(&mut out, sep);
        }
        push_all(&mut out, ss[i].as_slice());
        proof {
            if i == 0 {
                assert(all.take(1)[0] == all[0]);
                assert(out@ =~= join(all.take(1), sep@));
            }
        }
        i = i + 1;
    }
    assert(all.take(ss@.len() as int) =~= all);
    out
}


// ─── Ordering ──────────────────────────────────────────────────────────────

/// `a < b` in `str`'s order: lexicographic by code point (UTF-8 byte order
/// agrees with it).
pub open spec fn seq_lt(a: Seq<char>, b: Seq<char>) -> bool
    decreases a.len(),
{
    if a.len() == 0 {
        b.len() > 0
    } else if b.len() == 0 {
        false
    } else if a[0] != b[0] {
        a[0] < b[0]
    } else {
        seq_lt(a.drop_first(), b.drop_first())
    }
}

pub fn chars_lt(a: &[char], b: &[char]) -> (r: bool)
    ensures
        r == seq_lt(a@, b@),
{
    let mut i: usize = 0;
    assert(a@.skip(0) =~= a@ && b@.skip(0) =~= b@);
    while i < a.len() && i < b.len()
        invariant
            i <= a@.len(),
            i <= b@.len(),
            seq_lt(a@, b@) == seq_lt(a@.skip(i as int), b@.skip(i as int)),
        decreases a@.len() - i,
    {
        assert(a@.skip(i as int)[0] == a@[i as int] && b@.skip(i as int)[0] == b@[i as int]);
        if a[i] != b[i] {
            return a[i] < b[i];
        }
        assert(a@.skip(i as int).drop_first() =~= a@.skip(i + 1));
        assert(b@.skip(i as int).drop_first() =~= b@.skip(i + 1));
        i = i + 1;
    }
    i == a.len() && i < b.len()
}

pub fn str_lt(a: &str, b: &str) -> (r: bool)
    ensures
        r == seq_lt(a@, b@),
{
    let x = chars_of(a);
    let y = chars_of(b);
    chars_lt(x.as_slice(), y.as_slice())
}

pub proof fn lemma_seq_lt_irreflexive(a: Seq<char>)
    ensures
        !seq_lt(a, a),
    decreases a.len(),
{
    if a.len() > 0 {
        lemma_seq_lt_irreflexive(a.drop_first());
    }
}

pub proof fn lemma_seq_lt_total(a: Seq<char>, b: Seq<char>)
    ensures
        a != b ==> (seq_lt(a, b) || seq_lt(b, a)),
        !(seq_lt(a, b) && seq_lt(b, a)),
    decreases a.len(),
{
    if a.len() > 0 && b.len() > 0 {
        lemma_seq_lt_total(a.drop_first(), b.drop_first());
        if a[0] == b[0] && a.drop_first() == b.drop_first() {
            assert(a =~= seq![a[0]] + a.drop_first());
            assert(b =~= seq![b[0]] + b.drop_first());
        }
    } else if a.len() == 0 && b.len() == 0 {
        assert(a =~= b);
    }
}

pub proof fn lemma_seq_lt_transitive(a: Seq<char>, b: Seq<char>, c: Seq<char>)
    requires
        seq_lt(a, b),
        seq_lt(b, c),
    ensures
        seq_lt(a, c),
    decreases a.len(),
{
    if a.len() > 0 && b.len() > 0 && c.len() > 0 && a[0] == b[0] && b[0] == c[0] {
        lemma_seq_lt_transitive(a.drop_first(), b.drop_first(), c.drop_first());
    }
}


// ─── First occurrence ──────────────────────────────────────────────────────

/// Position of the first occurrence of `p` in `s` at or after `from`.
pub open spec fn first_match(s: Seq<char>, p: Seq<char>, from: int) -> Option<int>
    decreases s.len() + 1 - from,
{
    if from < 0 || from > s.len() {
        None
    } else if match_at(s, p, from) {
        Some(from)
    } else {
        first_match(s, p, from + 1)
    }
}

pub proof fn lemma_first_match(s: Seq<char>, p: Seq<char>, from: int)
    requires
        0 <= from,
    ensures
        match first_match(s, p, from) {
            Some(i) => from <= i <= s.len() && match_at(s, p, i) && forall|j: int|
                from <= j < i ==> !match_at(s, p, j),
            None => forall|j: int| from <= j ==> !match_at(s, p, j),
        },
    decreases s.len() + 1 - from,
{
    if from <= s.len() && !match_at(s, p, from) {
        lemma_first_match(s, p, from + 1);
    }
}

/// `str::find` from `from`, as a char position.
pub fn find_chars(v: &[char], p: &[char], from: usize) -> (r: Option<usize>)
    requires
        from <= v@.len(),
    ensures
        match r {
            Some(i) => first_match(v@, p@, from as int) == Some(i as int),
            None => first_match(v@, p@, from as int) is None,
        },
{
    let n = v.len();
    let mut i: usize = from;
    while i <= n
        invariant
            from <= i <= n + 1,
            n == v@.len(),
            first_match(v@, p@, from as int) == first_match(v@, p@, i as int),
        decreases n + 1 - i,
    {
        if starts_with_at(v, i, p) {
            return Some(i);
        }
        if i == n {
            assert(first_match(v@, p@, (n + 1) as int) is None);
            return None;
        }
        i = i + 1;
    }
    None
}

// ─── Sorting strings ───────────────────────────────────────────────────────

/// Where `x` goes among sorted strings: after every string not above it.
pub open spec fn str_pos(t: Seq<Seq<char>>, x: Seq<char>) -> int
    decreases t.len(),
{
    if t.len() == 0 {
        0
    } else if seq_lt(x, t[0]) {
        0
    } else {
        1 + str_pos(t.drop_first(), x)
    }
}

/// The strings in ascending order (`slice::sort`).
pub open spec fn sort_seqs(s: Seq<Seq<char>>) -> Seq<Seq<char>>
    decreases s.len(),
{
    if s.len() == 0 {
        seq![]
    } else {
        let t = sort_seqs(s.drop_last());
        t.insert(str_pos(t, s.last()), s.last())
    }
}

pub proof fn lemma_str_pos(t: Seq<Seq<char>>, x: Seq<char>)
    ensures
        0 <= str_pos(t, x) <= t.len(),
        forall|i: int| 0 <= i < str_pos(t, x) ==> !seq_lt(x, #[trigger] t[i]),
        str_pos(t, x) < t.len() ==> seq_lt(x, t[str_pos(t, x)]),
    decreases t.len(),
{
    if t.len() > 0 && !seq_lt(x, t[0]) {
        lemma_str_pos(t.drop_first(), x);
        assert forall|i: int| 0 <= i < str_pos(t, x) implies !seq_lt(x, #[trigger] t[i]) by {
            if i > 0 {
                assert(t[i] == t.drop_first()[i - 1]);
            }
        }
    }
}

pub open spec fn strs_view(v: Seq<String>) -> Seq<Seq<char>> {
    v.map_values(|s: String| s@)
}

/// Sorts strings ascending.
pub fn sort_strings(v: Vec<String>) -> (r: Vec<String>)
    ensures
        strs_view(r@) == sort_seqs(strs_view(v@)),
{
    let ghost input = strs_view(v@);
    let n = v.len();
    let mut out: Vec<String> = Vec::new();
    assert(strs_view(out@) =~= sort_seqs(input.take(0)));
    let mut k: usize = 0;
    while k < n
        invariant
            k <= n,
            n == input.len(),
            input == strs_view(v@),
            strs_view(out@) == sort_seqs(input.take(k as int)),
        decreases n - k,
    {
        assert(input.take(k + 1).drop_last() =~= input.take(k as int));
        let x = &v[k];
        let ghost t = strs_view(out@);
        proof {
            lemma_str_pos(t, x@);
        }
        let mut pos: usize = 0;
        assert(t.skip(0) =~= t);
        while pos < out.len() && !str_lt(x.as_str(), out[pos].as_str())
            invariant
                pos <= out@.len(),
                t == strs_view(out@),
                str_pos(t, x@) == pos + str_pos(t.skip(pos as int), x@),
            decreases out@.len() - pos,
        {
            assert(t.skip(pos as int)[0] == out@[pos as int]@);
            assert(t.skip(pos as int).drop_first() =~= t.skip(pos + 1));
            pos = pos + 1;
        }
        proof {
            if pos < out@.len() {
                assert(t.skip(pos as int)[0] == out@[pos as int]@);
            }
        }
        let item = x.clone();
        out.insert(pos, item);
        assert(strs_view(out@) =~= t.insert(pos as int, item@));
        k = k + 1;
    }
    assert(input.take(n as int) =~= input);
    out
}

pub open spec fn sorted_seqs(s: Seq<Seq<char>>) -> bool {
    forall|i: int, j: int| 0 <= i < j < s.len() ==> !seq_lt(#[trigger] s[j], #[trigger] s[i])
}

/// Sorting yields an ascending arrangement of the same strings.
pub proof fn sort_seqs_sorted_permutation(s: Seq<Seq<char>>)
    ensures
        sorted_seqs(sort_seqs(s)),
        sort_seqs(s).to_multiset() == s.to_multiset(),
        sort_seqs(s).len() == s.len(),
    decreases s.len(),
{
    broadcast use vstd::seq_lib::to_multiset_insert, vstd::seq_lib::to_multiset_build;

    if s.len() == 0 {
        assert(s =~= Seq::<Seq<char>>::empty());
    } else {
        let init = s.drop_last();
        let x = s.last();
        sort_seqs_sorted_permutation(init);
        let t = sort_seqs(init);
        lemma_str_pos(t, x);
        let p = str_pos(t, x);
        let u = t.insert(p, x);
        assert forall|i: int, j: int| 0 <= i < j < u.len() implies !seq_lt(
            #[trigger] u[j],
            #[trigger] u[i],
        ) by {
            if j < p {
                assert(u[i] == t[i] && u[j] == t[j]);
            } else if j == p {
                assert(u[i] == t[i]);
            } else if i == p {
                assert(u[j] == t[j - 1]);
                lemma_seq_lt_total(t[j - 1], x);
                lemma_seq_lt_total(x, t[p]);
                if seq_lt(t[j - 1], x) {
                    lemma_seq_lt_transitive(t[j - 1], x, t[p]);
                    if j - 1 > p {
                        assert(!seq_lt(t[j - 1], t[p]));
                    } else {
                        lemma_seq_lt_irreflexive(t[p]);
                    }
                }
            } else if i < p {
                assert(u[i] == t[i] && u[j] == t[j - 1]);
            } else {
                assert(u[i] == t[i - 1] && u[j] == t[j - 1]);
            }
        }
        assert(s =~= init.push(x));
    }
}

// ─── Digits ─────────────────────────────────────────────────────────────────

/// Every char an ASCII digit.
pub open spec fn all_ascii_digits(s: Seq<char>) -> bool {
    forall|i: int| 0 <= i < s.len() ==> '0' <= #[trigger] s[i] && s[i] <= '9'
}

/// Whether every char is an ASCII digit.
pub fn digits_only(v: &[char]) -> (b: bool)
    ensures
        b == all_ascii_digits(v@),
{
    let mut i: usize = 0;
    while i < v.len()
        invariant
            i <= v@.len(),
            forall|j: int| 0 <= j < i ==> '0' <= #[trigger] v@[j] && v@[j] <= '9',
        decreases v@.len() - i,
    {
        if !('0' <= v[i] && v[i] <= '9') {
            return false;
        }
        i = i + 1;
    }
    true
}

} // verus!
