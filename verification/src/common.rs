//! Input validation shared by every tool: URL / domain / scan-path
//! normalization (no shell metacharacters, length caps) and output
//! truncation that never splits a character.

use vstd::prelude::*;
use vstd::string::StrSliceExecFns;

use crate::text::{
    chars_of, concat_chars, decimal, decimal_chars, has_prefix, is_whitespace, is_ws, lead_ws, lit, trail_ws,
    lower_chars, push_all, push_str, slice_chars, starts_with, starts_with_at, str_to_lowercase,
    string_of, trim, trim_chars, trim_start, split_char, split_chars, seqs_view, all_ascii, ascii_lower,
    is_ascii_char,
};

verus! {

/// The view of a `Result<String, String>`.
pub open spec fn res_view(r: Result<String, String>) -> Result<Seq<char>, Seq<char>> {
    match r {
        Ok(s) => Ok(s@),
        Err(e) => Err(e@),
    }
}

/// Bytes taken by `c` in UTF-8 (`char::len_utf8`).
pub open spec fn char_width(c: char) -> nat {
    if (c as u32) < 0x80 {
        1
    } else if (c as u32) < 0x800 {
        2
    } else if (c as u32) < 0x10000 {
        3
    } else {
        4
    }
}

/// Byte length of the UTF-8 encoding of `s` (`str::len`).
pub open spec fn utf8_len(s: Seq<char>) -> nat
    decreases s.len(),
{
    if s.len() == 0 {
        0
    } else {
        utf8_len(s.drop_last()) + char_width(s.last())
    }
}

pub fn char_len_utf8(c: char) -> (n: usize)
    ensures
        n == char_width(c),
{
    let u = c as u32;
    if u < 0x80 {
        1
    } else if u < 0x800 {
        2
    } else if u < 0x10000 {
        3
    } else {
        4
    }
}

/// `str::len`: the length of the string in bytes, which its documentation
/// defines as the size of its UTF-8 encoding.
#[verifier::external_body]
pub(crate) fn byte_len(s: &str) -> (n: usize)
    ensures
        n == utf8_len(s@),
{
    s.len()
}

/// Whether the UTF-8 length of `v` exceeds `cap`.
pub fn utf8_len_exceeds(v: &[char], cap: usize) -> (b: bool)
    ensures
        b == (utf8_len(v@) > cap),
{
    let mut total: usize = 0;
    let mut i: usize = 0;
    while i < v.len()
        invariant
            i <= v@.len(),
            total == utf8_len(v@.take(i as int)),
            total <= cap,
        decreases v@.len() - i,
    {
        let w = char_len_utf8(v[i]);
        proof {
            assert(v@.take(i + 1).drop_last() =~= v@.take(i as int));
        }
        if w > cap - total {
            proof {
                lemma_utf8_len_prefix(v@, i + 1);
            }
            return true;
        }
        total = total + w;
        i = i + 1;
    }
    proof {
        assert(v@.take(v@.len() as int) =~= v@);
    }
    false
}

pub proof fn lemma_utf8_len_prefix(s: Seq<char>, k: int)
    requires
        0 <= k <= s.len(),
    ensures
        utf8_len(s.take(k)) <= utf8_len(s),
    decreases s.len() - k,
{
    if k < s.len() {
        lemma_utf8_len_prefix(s, k + 1);
        assert(s.take(k + 1).drop_last() =~= s.take(k));
    } else {
        assert(s.take(k) =~= s);
    }
}

pub proof fn lemma_utf8_len_bound(s: Seq<char>)
    ensures
        utf8_len(s) <= 4 * s.len(),
    decreases s.len(),
{
    if s.len() > 0 {
        lemma_utf8_len_bound(s.drop_last());
    }
}

/// Shell metacharacters refused in every user-supplied target.
pub open spec fn is_shell_meta(c: char) -> bool {
    c == ';' || c == '|' || c == '&' || c == '`' || c == '$' || c == '(' || c == ')' || c == '{'
        || c == '}' || c == '<' || c == '>' || c == '"' || c == '\'' || c == '\\'
}

pub fn shell_meta(c: char) -> (b: bool)
    ensures
        b == is_shell_meta(c),
{
    c == ';' || c == '|' || c == '&' || c == '`' || c == '$' || c == '(' || c == ')' || c == '{'
        || c == '}' || c == '<' || c == '>' || c == '"' || c == '\'' || c == '\\'
}

/// A char refused in a URL or domain: whitespace or a shell metacharacter.
pub open spec fn is_bad_target_char(c: char) -> bool {
    is_ws(c) || is_shell_meta(c)
}

pub open spec fn has_bad_target_char(s: Seq<char>) -> bool {
    exists|i: int| 0 <= i < s.len() && is_bad_target_char(#[trigger] s[i])
}

pub open spec fn has_shell_meta(s: Seq<char>) -> bool {
    exists|i: int| 0 <= i < s.len() && is_shell_meta(#[trigger] s[i])
}

pub fn any_bad_target_char(v: &[char]) -> (b: bool)
    ensures
        b == has_bad_target_char(v@),
{
    let mut i: usize = 0;
    while i < v.len()
        invariant
            i <= v@.len(),
            forall|j: int| 0 <= j < i ==> !is_bad_target_char(#[trigger] v@[j]),
        decreases v@.len() - i,
    {
        if is_whitespace(v[i]) || shell_meta(v[i]) {
            assert(is_bad_target_char(v@[i as int]));
            return true;
        }
        i = i + 1;
    }
    false
}

pub fn any_shell_meta(v: &[char]) -> (b: bool)
    ensures
        b == has_shell_meta(v@),
{
    let mut i: usize = 0;
    while i < v.len()
        invariant
            i <= v@.len(),
            forall|j: int| 0 <= j < i ==> !is_shell_meta(#[trigger] v@[j]),
        decreases v@.len() - i,
    {
        if shell_meta(v[i]) {
            assert(is_shell_meta(v@[i as int]));
            return true;
        }
        i = i + 1;
    }
    false
}

/// `trim_end_matches(c)`: drop every trailing `c`.
pub open spec fn rstrip_char(s: Seq<char>, c: char) -> Seq<char>
    decreases s.len(),
{
    if s.len() > 0 && s.last() == c {
        rstrip_char(s.drop_last(), c)
    } else {
        s
    }
}

pub fn rstrip_char_exec(v: &[char], c: char) -> (r: Vec<char>)
    ensures
        r@ == rstrip_char(v@, c),
{
    let mut e: usize = v.len();
    proof {
        assert(v@.take(v@.len() as int) =~= v@);
    }
    while e > 0 && v[e - 1] == c
        invariant
            e <= v@.len(),
            rstrip_char(v@, c) == rstrip_char(v@.take(e as int), c),
        decreases e,
    {
        proof {
            assert(v@.take(e as int).drop_last() =~= v@.take(e - 1));
        }
        e = e - 1;
    }
    proof {
        assert(v@.take(v@.len() as int) =~= v@);
    }
    let r = slice_chars(v, 0, e);
    proof {
        assert(v@.subrange(0, e as int) =~= v@.take(e as int));
    }
    r
}

/// `trim_start_matches(p)`: drop every leading copy of `p`.
pub open spec fn strip_all_prefix(s: Seq<char>, p: Seq<char>) -> Seq<char>
    decreases s.len(),
{
    if p.len() > 0 && starts_with(s, p) {
        strip_all_prefix(s.skip(p.len() as int), p)
    } else {
        s
    }
}

pub fn strip_all_prefix_exec(v: &[char], p: &[char]) -> (r: Vec<char>)
    ensures
        r@ == strip_all_prefix(v@, p@),
{
    let mut i: usize = 0;
    proof {
        assert(v@.skip(0) =~= v@);
    }
    while p.len() > 0 && i <= v.len() && p.len() <= v.len() - i && starts_with_at(v, i, p)
        invariant
            i <= v@.len(),
            strip_all_prefix(v@, p@) == strip_all_prefix(v@.skip(i as int), p@),
        decreases v@.len() - i,
    {
        proof {
            let t = v@.skip(i as int);
            assert(t.take(p@.len() as int) =~= v@.subrange(i as int, i + p@.len()));
            assert(t.skip(p@.len() as int) =~= v@.skip(i + p@.len()));
        }
        i = i + p.len();
    }
    proof {
        let t = v@.skip(i as int);
        if p@.len() > 0 && p@.len() <= t.len() {
            assert(t.take(p@.len() as int) =~= v@.subrange(i as int, i + p@.len()));
        }
    }
    let r = slice_chars(v, i, v.len());
    proof {
        assert(v@.subrange(i as int, v@.len() as int) =~= v@.skip(i as int));
    }
    r
}

// ─── normalize_url ──────────────────────────────────────────────────────────

/// What `normalize_url` returns for `raw`.
pub open spec fn spec_normalize_url(raw: Seq<char>) -> Result<Seq<char>, Seq<char>> {
    let u = trim(raw);
    if u.len() == 0 {
        Err("URL is empty"@)
    } else if utf8_len(u) > 2048 {
        Err("URL too long"@)
    } else if has_bad_target_char(u) {
        Err("URL contains invalid characters"@)
    } else {
        let with_scheme = if starts_with(u, "http://"@) || starts_with(u, "https://"@) {
            u
        } else {
            "https://"@ + u
        };
        Ok(rstrip_char(with_scheme, '/'))
    }
}

/// Normalize user URL: add https if missing, reject shell-ish input.
pub fn normalize_url(raw: &str) -> (r: Result<String, String>)
    ensures
        res_view(r) == spec_normalize_url(raw@),
{
    let rv = chars_of(raw);
    let u = trim_chars(rv.as_slice());
    if u.len() == 0 {
        return Err(lit("URL is empty"));
    }
    if utf8_len_exceeds(u.as_slice(), 2048) {
        return Err(lit("URL too long"));
    }
    if any_bad_target_char(u.as_slice()) {
        return Err(lit("URL contains invalid characters"));
    }
    let http = chars_of("http://");
    let https = chars_of("https://");
    let with_scheme = if has_prefix(u.as_slice(), http.as_slice()) || has_prefix(
        u.as_slice(),
        https.as_slice(),
    ) {
        u
    } else {
        concat_chars(https.as_slice(), u.as_slice())
    };
    let out = rstrip_char_exec(with_scheme.as_slice(), '/');
    Ok(string_of(out.as_slice()))
}

proof fn lemma_rstrip_prefix(s: Seq<char>, c: char)
    ensures
        rstrip_char(s, c).len() <= s.len(),
        rstrip_char(s, c) =~= s.take(rstrip_char(s, c).len() as int),
        rstrip_char(s, c).len() == 0 || rstrip_char(s, c).last() != c,
    decreases s.len(),
{
    if s.len() > 0 && s.last() == c {
        lemma_rstrip_prefix(s.drop_last(), c);
        let r = rstrip_char(s.drop_last(), c);
        assert(s.drop_last().take(r.len() as int) =~= s.take(r.len() as int));
    } else {
        assert(s.take(s.len() as int) =~= s);
    }
}

proof fn lemma_scheme_chars_clean()
    ensures
        forall|i: int| 0 <= i < 8 ==> !is_bad_target_char(#[trigger] "https://"@[i]),
{
    reveal_strlit("https://");
    assert forall|i: int| 0 <= i < 8 implies !is_bad_target_char(#[trigger] "https://"@[i]) by {
        if i == 0 {
            assert("https://"@[i] == 'h');
        } else if i == 1 || i == 2 {
            assert("https://"@[i] == 't');
        } else if i == 3 {
            assert("https://"@[i] == 'p');
        } else if i == 4 {
            assert("https://"@[i] == 's');
        } else if i == 5 {
            assert("https://"@[i] == ':');
        } else {
            assert("https://"@[i] == '/');
        }
    }
}

/// Normalizing a normalized URL changes nothing, unless the result lost its
/// scheme's slashes (a target of slashes only, as in `https://`) or grew
/// past the length limit when the scheme was added.
pub proof fn normalize_url_idempotent(raw: Seq<char>, u: Seq<char>)
    requires
        spec_normalize_url(raw) == Ok::<Seq<char>, Seq<char>>(u),
        starts_with(u, "http://"@) || starts_with(u, "https://"@),
        utf8_len(u) <= 2048,
    ensures
        spec_normalize_url(u) == Ok::<Seq<char>, Seq<char>>(u),
{
    let t = trim(raw);
    let ws = if starts_with(t, "http://"@) || starts_with(t, "https://"@) {
        t
    } else {
        "https://"@ + t
    };
    assert(u == rstrip_char(ws, '/'));
    lemma_rstrip_prefix(ws, '/');
    lemma_scheme_chars_clean();
    reveal_strlit("https://");
    reveal_strlit("http://");
    assert(!has_bad_target_char(t));
    assert forall|i: int| 0 <= i < u.len() implies !is_bad_target_char(#[trigger] u[i]) by {
        assert(u[i] == ws[i]);
        if !(starts_with(t, "http://"@) || starts_with(t, "https://"@)) {
            if i < 8 {
                assert(ws[i] == "https://"@[i]);
            } else {
                assert(ws[i] == t[i - 8]);
            }
        }
    }
    assert(!has_bad_target_char(u));
    assert(u.len() >= 7);
    assert(u[0] == u.take(7)[0]);
    assert(!is_ws(u[0]));
    assert(!is_ws(u.last()) && !is_bad_target_char(u[u.len() - 1]));
    assert(lead_ws(u) == 0);
    assert(trail_ws(u) == 0);
    assert(u.skip(0) =~= u);
    assert(u.take(u.len() as int) =~= u);
    assert(trim(u) == u);
    assert(rstrip_char(u, '/') == u);
}

// ─── normalize_domain ───────────────────────────────────────────────────────

pub open spec fn is_host_stop(c: char) -> bool {
    c == '/' || c == ':' || c == '?'
}

/// Length of the part before the first `/`, `:` or `?`.
pub open spec fn host_end(s: Seq<char>) -> nat
    decreases s.len(),
{
    if s.len() == 0 || is_host_stop(s[0]) {
        0
    } else {
        1 + host_end(s.drop_first())
    }
}

pub proof fn lemma_host_end(s: Seq<char>, i: int)
    requires
        0 <= i <= s.len(),
        forall|j: int| 0 <= j < i ==> !is_host_stop(#[trigger] s[j]),
    ensures
        host_end(s) == i + host_end(s.skip(i)),
    decreases i,
{
    if i > 0 {
        lemma_host_end(s.drop_first(), i - 1);
        assert(s.drop_first().skip(i - 1) =~= s.skip(i));
    } else {
        assert(s.skip(0) =~= s);
    }
}

/// What `normalize_domain` returns for `raw`.
pub open spec fn spec_normalize_domain(raw: Seq<char>) -> Result<Seq<char>, Seq<char>> {
    let t = trim(raw);
    if t.len() == 0 {
        Err("Domain is empty"@)
    } else if utf8_len(t) > 253 {
        Err("Domain too long"@)
    } else if has_bad_target_char(t) {
        Err("Domain contains invalid characters"@)
    } else {
        let stripped = strip_all_prefix(strip_all_prefix(t, "https://"@), "http://"@);
        let host0 = stripped.take(host_end(stripped) as int);
        let host = rstrip_char(trim(host0), '.');
        if host.len() == 0 || !host.contains('.') {
            Err("Invalid domain (expected something like example.com)"@)
        } else {
            Ok(str_to_lowercase(host))
        }
    }
}

pub fn host_prefix(v: &[char]) -> (r: Vec<char>)
    ensures
        r@ == v@.take(host_end(v@) as int),
{
    let mut i: usize = 0;
    while i < v.len() && !(v[i] == '/' || v[i] == ':' || v[i] == '?')
        invariant
            i <= v@.len(),
            forall|j: int| 0 <= j < i ==> !is_host_stop(#[trigger] v@[j]),
        decreases v@.len() - i,
    {
        i = i + 1;
    }
    proof {
        lemma_host_end(v@, i as int);
        assert(host_end(v@.skip(i as int)) == 0);
    }
    let r = slice_chars(v, 0, i);
    proof {
        assert(v@.subrange(0, i as int) =~= v@.take(i as int));
    }
    r
}

pub fn has_char(v: &[char], c: char) -> (b: bool)
    ensures
        b == v@.contains(c),
{
    let mut i: usize = 0;
    while i < v.len()
        invariant
            i <= v@.len(),
            forall|j: int| 0 <= j < i ==> v@[j] != c,
        decreases v@.len() - i,
    {
        if v[i] == c {
            return true;
        }
        i = i + 1;
    }
    false
}

/// Normalize a bare domain input: strip scheme / path / port, validate chars.
/// A plain host name char: ASCII, neither whitespace nor a shell
/// metacharacter.
pub open spec fn plain_host_char(c: char) -> bool {
    is_ascii_char(c) && !is_bad_target_char(c)
}

/// The shape of a domain normalized from ASCII input: a `.` inside, no
/// trailing `.`, and only lowercase ASCII chars that are neither
/// whitespace, shell metacharacters nor `/`, `:`, `?`.
pub open spec fn ascii_domain_shape(h: Seq<char>) -> bool {
    &&& h.contains('.')
    &&& h.last() != '.'
    &&& forall|i: int|
        0 <= i < h.len() ==> plain_host_char(#[trigger] h[i]) && !is_host_stop(h[i]) && !('A' <= h[i]
            && h[i] <= 'Z')
}

proof fn lemma_strip_keeps_plain(s: Seq<char>, p: Seq<char>)
    requires
        forall|i: int| 0 <= i < s.len() ==> plain_host_char(#[trigger] s[i]),
    ensures
        forall|i: int| 0 <= i < strip_all_prefix(s, p).len() ==> plain_host_char(#[trigger] strip_all_prefix(s, p)[i]),
    decreases s.len(),
{
    if p.len() > 0 && starts_with(s, p) {
        let u = s.skip(p.len() as int);
        assert forall|i: int| 0 <= i < u.len() implies plain_host_char(#[trigger] u[i]) by {
            assert(u[i] == s[i + p.len()]);
        }
        lemma_strip_keeps_plain(u, p);
        assert(strip_all_prefix(s, p) == strip_all_prefix(u, p));
    } else {
        assert(strip_all_prefix(s, p) == s);
    }
}

proof fn lemma_host_end_stops(s: Seq<char>)
    ensures
        host_end(s) <= s.len(),
        forall|i: int| 0 <= i < host_end(s) ==> !is_host_stop(#[trigger] s[i]),
    decreases s.len(),
{
    if s.len() > 0 && !is_host_stop(s[0]) {
        lemma_host_end_stops(s.drop_first());
        assert forall|i: int| 0 <= i < host_end(s) implies !is_host_stop(#[trigger] s[i]) by {
            if i > 0 {
                assert(s[i] == s.drop_first()[i - 1]);
            }
        }
    }
}

proof fn lemma_trim_is_slice(s: Seq<char>)
    ensures
        forall|i: int| 0 <= i < trim(s).len() ==> exists|j: int| 0 <= j < s.len() && #[trigger] trim(s)[i] == s[j],
{
    crate::text::lemma_lead_ws_bound(s);
    crate::text::lemma_trail_ws_bound(trim_start(s));
    assert forall|i: int| 0 <= i < trim(s).len() implies exists|j: int| 0 <= j < s.len() && #[trigger] trim(s)[i] == s[j] by {
        assert(trim(s)[i] == s[i + lead_ws(s)]);
    }
}

pub fn normalize_domain(raw: &str) -> (r: Result<String, String>)
    ensures
        res_view(r) == spec_normalize_domain(raw@),
        all_ascii(trim(raw@)) ==> (r matches Ok(h) ==> ascii_domain_shape(h@)),
{
    let rv = chars_of(raw);
    let t = trim_chars(rv.as_slice());
    if t.len() == 0 {
        return Err(lit("Domain is empty"));
    }
    if utf8_len_exceeds(t.as_slice(), 253) {
        return Err(lit("Domain too long"));
    }
    if any_bad_target_char(t.as_slice()) {
        return Err(lit("Domain contains invalid characters"));
    }
    let https = chars_of("https://");
    let http = chars_of("http://");
    let s1 = strip_all_prefix_exec(t.as_slice(), https.as_slice());
    let stripped = strip_all_prefix_exec(s1.as_slice(), http.as_slice());
    let host0 = host_prefix(stripped.as_slice());
    let host1 = trim_chars(host0.as_slice());
    let host = rstrip_char_exec(host1.as_slice(), '.');
    if host.len() == 0 || !has_char(host.as_slice(), '.') {
        return Err(lit("Invalid domain (expected something like example.com)"));
    }
    let lower = lower_chars(host.as_slice());
    proof {
        if all_ascii(t@) {
            assert forall|i: int| 0 <= i < t@.len() implies plain_host_char(#[trigger] t@[i]) by {
                assert(is_ascii_char(t@[i]));
            }
            lemma_strip_keeps_plain(t@, https@);
            lemma_strip_keeps_plain(s1@, http@);
            lemma_host_end_stops(stripped@);
            assert forall|i: int| 0 <= i < host0@.len() implies plain_host_char(#[trigger] host0@[i]) && !is_host_stop(host0@[i]) by {
                assert(host0@[i] == stripped@[i]);
            }
            lemma_trim_is_slice(host0@);
            lemma_rstrip_prefix(host1@, '.');
            assert forall|i: int| 0 <= i < host@.len() implies plain_host_char(#[trigger] host@[i]) && !is_host_stop(host@[i]) by {
                assert(host@[i] == host1@[i]);
                let j = choose|j: int| 0 <= j < host0@.len() && host1@[i] == host0@[j];
                assert(plain_host_char(host0@[j]) && !is_host_stop(host0@[j]));
            }
            assert(all_ascii(host@));
            let l = lower@;
            assert(l == host@.map_values(|c: char| ascii_lower(c)));
            assert forall|i: int| 0 <= i < l.len() implies plain_host_char(#[trigger] l[i]) && !is_host_stop(l[i]) && !('A' <= l[i] && l[i] <= 'Z') by {
                assert(l[i] == ascii_lower(host@[i]));
                assert(plain_host_char(host@[i]) && !is_host_stop(host@[i]));
                if 'A' <= host@[i] && host@[i] <= 'Z' {
                    assert((host@[i] as u32) + 32 < 128);
                }
            }
            let w = choose|w: int| 0 <= w < host@.len() && host@[w] == '.';
            assert(l[w] == '.');
            assert(l.last() == ascii_lower(host@.last()));
        }
    }
    Ok(string_of(lower.as_slice()))
}

// ─── resolve_scan_path ──────────────────────────────────────────────────────

/// `Path::join` of a relative path onto a root (an absolute path replaces it).
pub open spec fn path_join(root: Seq<char>, p: Seq<char>) -> Seq<char> {
    if p.len() > 0 && p[0] == '/' {
        p
    } else if root.len() == 0 {
        p
    } else if root.last() == '/' {
        root + p
    } else {
        root + seq!['/'] + p
    }
}

/// `Path::join` on char vectors.
pub fn path_join_exec(root: &[char], p: &[char]) -> (r: Vec<char>)
    ensures
        r@ == path_join(root@, p@),
{
    if p.len() > 0 && p[0] == '/' {
        return slice_chars(p, 0, p.len());
    }
    if root.len() == 0 {
        return slice_chars(p, 0, p.len());
    }
    let mut out = slice_chars(root, 0, root.len());
    if root[root.len() - 1] != '/' {
        out.push('/');
    }
    push_all(&mut out, p);
    proof {
        assert(root@.subrange(0, root@.len() as int) =~= root@);
        assert(p@.subrange(0, p@.len() as int) =~= p@);
        if root@.last() != '/' {
            assert(out@ =~= root@ + seq!['/'] + p@);
        }
    }
    out
}

/// What `resolve_scan_path` returns: the validated path joined onto the root,
/// before canonicalization.
pub open spec fn spec_resolve_scan_path(root: Seq<char>, raw: Seq<char>) -> Result<
    Seq<char>,
    Seq<char>,
> {
    let r = trim(raw);
    if r.len() == 0 {
        Err("Path is empty"@)
    } else if has_shell_meta(r) {
        Err("Path contains invalid characters"@)
    } else if escapes_root(r) {
        Err("Path escapes the repository"@)
    } else {
        Ok(path_join(root, r))
    }
}

/// A relative path with a `..` component: it may leave the root it is
/// joined onto.
pub open spec fn escapes_root(p: Seq<char>) -> bool {
    !(p.len() > 0 && p[0] == '/') && split_char(p, '/').contains(".."@)
}

fn has_parent_component(v: &[char]) -> (b: bool)
    ensures
        b == split_char(v@, '/').contains(".."@),
{
    let parts = split_chars(v, '/');
    let ghost pv = seqs_view(parts@);
    let dots = chars_of("..");
    proof {
        reveal_strlit("..");
    }
    let mut i: usize = 0;
    while i < parts.len()
        invariant
            i <= parts@.len(),
            pv == seqs_view(parts@),
            pv == split_char(v@, '/'),
            dots@ == ".."@,
            forall|j: int| 0 <= j < i ==> pv[j] != ".."@,
        decreases parts@.len() - i,
    {
        assert(pv[i as int] == parts@[i as int]@);
        if crate::text::chars_eq(parts[i].as_slice(), dots.as_slice()) {
            assert(pv.contains(".."@)) by {
                assert(pv[i as int] == ".."@);
            }
            return true;
        }
        i = i + 1;
    }
    assert(!pv.contains(".."@)) by {
        if pv.contains(".."@) {
            let j = choose|j: int| 0 <= j < pv.len() && pv[j] == ".."@;
            assert(pv[j] != ".."@);
        }
    }
    false
}

/// Resolve a scan path: absolute as-is, else under `repo_root`. Rejects empty
/// input, shell metacharacters, and a relative path with a `..` component
/// (an escape out of the repository). The returned path is the one to
/// canonicalize (and so to check for existence) before scanning.
pub fn resolve_scan_path(repo_root: &str, raw: &str) -> (r: Result<String, String>)
    ensures
        res_view(r) == spec_resolve_scan_path(repo_root@, raw@),
{
    let rv = chars_of(raw);
    let t = trim_chars(rv.as_slice());
    if t.len() == 0 {
        return Err(lit("Path is empty"));
    }
    if any_shell_meta(t.as_slice()) {
        return Err(lit("Path contains invalid characters"));
    }
    if t[0] == '/' {
        return Ok(string_of(t.as_slice()));
    }
    if has_parent_component(t.as_slice()) {
        return Err(lit("Path escapes the repository"));
    }
    let root = chars_of(repo_root);
    if root.len() == 0 {
        return Ok(string_of(t.as_slice()));
    }
    let mut out = slice_chars(root.as_slice(), 0, root.len());
    if root[root.len() - 1] != '/' {
        out.push('/');
    }
    push_all(&mut out, t.as_slice());
    proof {
        assert(root@.subrange(0, root@.len() as int) =~= root@);
        if root@.last() != '/' {
            assert(out@ =~= root@ + seq!['/'] + t@);
        }
    }
    Ok(string_of(out.as_slice()))
}

// ─── Output truncation ──────────────────────────────────────────────────────

/// What `truncate_output` returns.
pub open spec fn spec_truncate_output(s: Seq<char>, max_chars: nat) -> Seq<char> {
    if s.len() <= max_chars {
        s
    } else {
        s.take(max_chars as int) + "\n\n… truncated ("@ + decimal(max_chars) + " chars max)"@
    }
}

/// Truncate huge CLI output for the UI.
pub fn truncate_output(s: &str, max_chars: usize) -> (r: String)
    ensures
        r@ == spec_truncate_output(s@, max_chars as nat),
{
    let v = chars_of(s);
    if v.len() <= max_chars {
        return string_of(v.as_slice());
    }
    let mut out = slice_chars(v.as_slice(), 0, max_chars);
    push_str(&mut out, "\n\n… truncated (");
    let d = decimal_chars(max_chars as u64);
    push_all(&mut out, d.as_slice());
    push_str(&mut out, " chars max)");
    proof {
        assert(v@.subrange(0, max_chars as int) =~= v@.take(max_chars as int));
    }
    string_of(out.as_slice())
}

/// Character-aware truncation of a char vector to at most `max` chars.
pub fn prefix_chars(v: &[char], max: usize) -> (r: Vec<char>)
    ensures
        r@ == v@.take(if max < v@.len() { max as int } else { v@.len() as int }),
{
    let end = if max < v.len() { max } else { v.len() };
    let r = slice_chars(v, 0, end);
    proof {
        assert(v@.subrange(0, end as int) =~= v@.take(end as int));
    }
    r
}

/// The first `max` chars of `s` (all of `s` when it is shorter).
pub open spec fn spec_safe_prefix(s: Seq<char>, max: nat) -> Seq<char> {
    if max < s.len() {
        s.take(max as int)
    } else {
        s
    }
}

/// Slice `s` up to `max` chars without ever landing mid-codepoint.
pub fn safe_prefix(s: &str, max: usize) -> (r: &str)
    ensures
        r@ == spec_safe_prefix(s@, max as nat),
{
    let n = s.unicode_len();
    let end = if max < n { max } else { n };
    let r = s.substring_char(0, end);
    proof {
        assert(s@.subrange(0, end as int) =~= spec_safe_prefix(s@, max as nat));
    }
    r
}


// ─── Retrying a request ─────────────────────────────────────────────────────

/// Tries a request gets: at least one.
pub open spec fn tries_spec(max_tries: nat) -> nat {
    if max_tries == 0 {
        1
    } else {
        max_tries
    }
}

/// What a failed attempt of a GET leads to: `Some(ms)` to wait and try
/// again, `None` to give up with that attempt's error. Only a transient
/// failure (no connection, a timeout) is retried, while tries are left, and
/// the wait grows linearly: 200 ms after the first attempt, 400 ms after the
/// second, and so on. `attempt` counts from 0; a wait that would not fit
/// in a `u64` is left out.
pub fn retry_after(attempt: usize, max_tries: usize, transient: bool) -> (r: Option<u64>)
    requires
        attempt < tries_spec(max_tries as nat),
        200 * (attempt + 1) <= u64::MAX,
    ensures
        r == (if transient && attempt + 1 < tries_spec(max_tries as nat) {
            Some((200 * (attempt + 1)) as u64)
        } else {
            None::<u64>
        }),
{
    let tries = if max_tries == 0 {
        1
    } else {
        max_tries
    };
    if !transient || attempt + 1 >= tries {
        return None;
    }
    let n: u64 = attempt as u64 + 1;
    Some(200 * n)
}

} // verus!
