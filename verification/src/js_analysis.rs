//! JavaScript analysis: the script references of a page, resolved against
//! it, and the endpoints and secrets mined from page and scripts. The
//! fetching is the caller's; the matching goes through the `regex` crate.

use vstd::prelude::*;

use crate::text::ov;
use crate::common::{
    byte_len, has_char, res_view, rstrip_char, rstrip_char_exec, safe_prefix, spec_safe_prefix,
    spec_truncate_output, truncate_output, utf8_len,
};
use crate::attack_surface::pairs_view;
use crate::open_redirect::{status_display, status_text};
use crate::pattern::{regex_captures, regex_captures_of, regex_compiles, row_view, rows_view};
use crate::text::{
    chars_of, contains, ends_with, has_prefix, has_suffix, lit, lowercase, push_all, push_str,
    slice_chars, split_char, split_chars, seqs_view, starts_with, str_contains, str_eq,
    str_to_lowercase, string_of, strs_view, trim, trim_chars, trim_str, first_match,
    lemma_first_match, lemma_split_nonempty, find_chars, match_at, decimal, decimal_chars, join,
    parse_unsigned, parse_unsigned_spec,
};

verus! {

pub struct ScriptRef {
    pub url: String,
    pub size: usize,
}

pub struct Secret {
    pub key: String,
    pub value: String,
}

pub struct Counts {
    pub scripts: usize,
    pub endpoints: usize,
    pub api_endpoints: usize,
    pub secrets: usize,
}

pub struct JsAnalysisResponse {
    pub url: String,
    pub installed: bool,
    pub scripts: Vec<ScriptRef>,
    pub endpoints: Vec<String>,
    pub secrets: Vec<Secret>,
    pub counts: Counts,
    pub raw: String,
    pub error: Option<String>,
    pub duration_ms: u64,
    pub command: String,
}

/// At most this many script files are fetched per page.
pub const MAX_SCRIPTS: usize = 30;

/// Largest script body read, in bytes.
pub const MAX_SCRIPT_BYTES: usize = 2000000;

/// Largest page body read, in bytes.
pub const MAX_PAGE_BYTES: usize = 3000000;

/// Endpoints kept in an answer.
pub const MAX_ENDPOINTS: usize = 300;

/// Secrets kept in an answer.
pub const MAX_SECRETS: usize = 40;

/// Chars of the raw text kept in an answer.
pub const MAX_RAW_CHARS: usize = 25000;

// ─── Matching by group ──────────────────────────────────────────────────────

/// Group `g`'s text of every match that has it.
pub open spec fn group_texts(rows: Seq<Seq<Option<Seq<char>>>>, g: int) -> Seq<Seq<char>>
    decreases rows.len(),
{
    if rows.len() == 0 {
        seq![]
    } else {
        let p = group_texts(rows.drop_last(), g);
        let r = rows.last();
        if 0 <= g < r.len() && r[g] is Some {
            p.push(r[g]->Some_0)
        } else {
            p
        }
    }
}

/// Group `g` of every match of the pattern (nothing if it does not compile).
pub open spec fn matches_of(pattern: Seq<char>, text: Seq<char>, g: int) -> Seq<Seq<char>> {
    if regex_compiles(pattern) {
        group_texts(regex_captures_of(pattern, text), g)
    } else {
        seq![]
    }
}

pub fn group_matches(pattern: &str, text: &str, g: usize) -> (r: Vec<String>)
    ensures
        strs_view(r@) == matches_of(pattern@, text@, g as int),
{
    let mut out: Vec<String> = Vec::new();
    match regex_captures(pattern, text) {
        None => {
            assert(strs_view(out@) =~= Seq::<Seq<char>>::empty());
            out
        },
        Some(rows) => {
            let ghost rv = rows_view(rows@);
            let mut i: usize = 0;
            while i < rows.len()
                invariant
                    i <= rows@.len(),
                    rv == rows_view(rows@),
                    strs_view(out@) =~= group_texts(rv.take(i as int), g as int),
                decreases rows@.len() - i,
            {
                assert(rv.take(i + 1).drop_last() =~= rv.take(i as int));
                assert(rv.take(i + 1).last() == row_view(rows@[i as int]@));
                let row = &rows[i];
                if g < row.len() {
                    match &row[g] {
                        Some(t) => {
                            let ghost prev = strs_view(out@);
                            out.push(t.clone());
                            assert(strs_view(out@) =~= prev.push(t@));
                        },
                        None => {},
                    }
                }
                i = i + 1;
            }
            assert(rv.take(rows@.len() as int) =~= rv);
            out
        },
    }
}

// ─── Resolving script references ────────────────────────────────────────────

/// The origin of a URL: scheme, `://` and host (empty without `://`).
pub open spec fn origin_spec(base: Seq<char>) -> Seq<char> {
    match first_match(base, "://"@, 0) {
        Some(i) => base.take(i) + "://"@ + split_char(base.skip(i + 3), '/')[0],
        None => seq![],
    }
}

/// A script reference resolved against the page URL: absolute URLs kept,
/// protocol-relative ones given `https:`, root paths joined to the origin,
/// others to the page URL.
pub open spec fn resolve_url_spec(base: Seq<char>, raw: Seq<char>) -> Option<Seq<char>> {
    let r = trim(raw);
    if r.len() == 0 {
        None
    } else if starts_with(r, "http://"@) || starts_with(r, "https://"@) {
        Some(r)
    } else if starts_with(r, "//"@) {
        Some("https://"@ + r.skip(2))
    } else {
        let b = rstrip_char(base, '/');
        if starts_with(r, "/"@) {
            Some(origin_spec(b) + r)
        } else {
            Some(b + "/"@ + r)
        }
    }
}

fn origin_of(base: &[char]) -> (r: Vec<char>)
    ensures
        r@ == origin_spec(base@),
{
    let m = chars_of("://");
    proof {
        lemma_first_match(base@, m@, 0);
        reveal_strlit("://");
    }
    match find_chars(base, m.as_slice(), 0) {
        Some(i) => {
            assert(m@.len() == 3);
            assert(match_at(base@, m@, i as int));
            let n = base.len();
            let mut out = slice_chars(base, 0, i);
            assert(out@ =~= base@.take(i as int));
            push_str(&mut out, "://");
            let rest = slice_chars(base, i + 3, n);
            assert(rest@ =~= base@.skip(i + 3));
            let parts = split_chars(rest.as_slice(), '/');
            proof {
                lemma_split_nonempty(rest@, '/');
            }
            assert(seqs_view(parts@)[0] == parts@[0]@);
            push_all(&mut out, parts[0].as_slice());
            out
        },
        None => {
            let out: Vec<char> = Vec::new();
            assert(out@ =~= Seq::<char>::empty());
            out
        },
    }
}

pub fn resolve_url(base: &str, raw: &str) -> (r: Option<String>)
    ensures
        match r {
            Some(u) => resolve_url_spec(base@, raw@) == Some(u@),
            None => resolve_url_spec(base@, raw@) is None,
        },
{
    let rv = chars_of(raw);
    let r = trim_chars(rv.as_slice());
    if r.len() == 0 {
        return None;
    }
    let http = chars_of("http://");
    let https = chars_of("https://");
    if has_prefix(r.as_slice(), http.as_slice()) || has_prefix(r.as_slice(), https.as_slice()) {
        return Some(string_of(r.as_slice()));
    }
    let dbl = chars_of("//");
    if has_prefix(r.as_slice(), dbl.as_slice()) {
        proof {
            reveal_strlit("//");
        }
        let n = r.len();
        let mut out = chars_of("https://");
        let rest = slice_chars(r.as_slice(), 2, n);
        assert(rest@ =~= r@.skip(2));
        push_all(&mut out, rest.as_slice());
        return Some(string_of(out.as_slice()));
    }
    let bv = chars_of(base);
    let b = rstrip_char_exec(bv.as_slice(), '/');
    let slash = chars_of("/");
    if has_prefix(r.as_slice(), slash.as_slice()) {
        let mut out = origin_of(b.as_slice());
        push_all(&mut out, r.as_slice());
        Some(string_of(out.as_slice()))
    } else {
        let mut out = b;
        push_str(&mut out, "/");
        push_all(&mut out, r.as_slice());
        Some(string_of(out.as_slice()))
    }
}

// ─── Endpoints ──────────────────────────────────────────────────────────────

/// Number of static-asset extensions.
pub const STATIC_EXT_COUNT: usize = 14;

pub open spec fn static_ext(k: int) -> Seq<char> {
    if k == 0 {
        ".css"@
    } else if k == 1 {
        ".png"@
    } else if k == 2 {
        ".jpg"@
    } else if k == 3 {
        ".jpeg"@
    } else if k == 4 {
        ".gif"@
    } else if k == 5 {
        ".svg"@
    } else if k == 6 {
        ".ico"@
    } else if k == 7 {
        ".woff"@
    } else if k == 8 {
        ".woff2"@
    } else if k == 9 {
        ".ttf"@
    } else if k == 10 {
        ".eot"@
    } else if k == 11 {
        ".map"@
    } else if k == 12 {
        ".mp4"@
    } else {
        ".webp"@
    }
}

fn static_ext_exec(k: usize) -> (r: &'static str)
    requires
        k < STATIC_EXT_COUNT,
    ensures
        r@ == static_ext(k as int),
{
    if k == 0 {
        ".css"
    } else if k == 1 {
        ".png"
    } else if k == 2 {
        ".jpg"
    } else if k == 3 {
        ".jpeg"
    } else if k == 4 {
        ".gif"
    } else if k == 5 {
        ".svg"
    } else if k == 6 {
        ".ico"
    } else if k == 7 {
        ".woff"
    } else if k == 8 {
        ".woff2"
    } else if k == 9 {
        ".ttf"
    } else if k == 10 {
        ".eot"
    } else if k == 11 {
        ".map"
    } else if k == 12 {
        ".mp4"
    } else {
        ".webp"
    }
}

/// A URL of an image, font, stylesheet, source map or video.
pub open spec fn is_static_spec(u: Seq<char>) -> bool {
    exists|k: int|
        0 <= k < STATIC_EXT_COUNT && ends_with(str_to_lowercase(u), #[trigger] static_ext(k))
}

pub fn is_static_asset(u: &str) -> (b: bool)
    ensures
        b == is_static_spec(u@),
{
    let lower = chars_of(lowercase(u).as_str());
    let mut k: usize = 0;
    while k < STATIC_EXT_COUNT
        invariant
            k <= STATIC_EXT_COUNT,
            lower@ == str_to_lowercase(u@),
            forall|j: int| 0 <= j < k ==> !ends_with(lower@, #[trigger] static_ext(j)),
        decreases STATIC_EXT_COUNT - k,
    {
        let e = chars_of(static_ext_exec(k));
        if has_suffix(lower.as_slice(), e.as_slice()) {
            return true;
        }
        k = k + 1;
    }
    false
}

/// Trailing punctuation dropped from a candidate.
pub open spec fn is_tail_punct(c: char) -> bool {
    c == '.' || c == ',' || c == ';' || c == ')' || c == ']' || c == '}'
}

pub open spec fn rstrip_punct(s: Seq<char>) -> Seq<char>
    decreases s.len(),
{
    if s.len() > 0 && is_tail_punct(s.last()) {
        rstrip_punct(s.drop_last())
    } else {
        s
    }
}

fn rstrip_punct_exec(v: &[char]) -> (r: Vec<char>)
    ensures
        r@ == rstrip_punct(v@),
{
    let mut e: usize = v.len();
    assert(v@.take(v@.len() as int) =~= v@);
    while e > 0 && (v[e - 1] == '.' || v[e - 1] == ',' || v[e - 1] == ';' || v[e - 1] == ')'
        || v[e - 1] == ']' || v[e - 1] == '}')
        invariant
            e <= v@.len(),
            rstrip_punct(v@) == rstrip_punct(v@.take(e as int)),
        decreases e,
    {
        assert(v@.take(e as int).drop_last() =~= v@.take(e - 1));
        e = e - 1;
    }
    let r = slice_chars(v, 0, e);
    assert(r@ =~= v@.take(e as int));
    r
}

/// A candidate made an endpoint: trimmed, trailing punctuation dropped,
/// 3 to 2048 bytes long, not a static asset, with a `/` or a `?`.
pub open spec fn clean_endpoint_spec(value: Seq<char>) -> Option<Seq<char>> {
    let v = rstrip_punct(trim(value));
    if utf8_len(v) < 3 || utf8_len(v) > 2048 {
        None
    } else if is_static_spec(v) {
        None
    } else if !(v.contains('/') || v.contains('?')) {
        None
    } else {
        Some(v)
    }
}

pub fn clean_endpoint(value: &str) -> (r: Option<String>)
    ensures
        match r {
            Some(v) => clean_endpoint_spec(value@) == Some(v@),
            None => clean_endpoint_spec(value@) is None,
        },
{
    let vv = chars_of(value);
    let t = trim_chars(vv.as_slice());
    let v = rstrip_punct_exec(t.as_slice());
    let s = string_of(v.as_slice());
    let n = byte_len(s.as_str());
    if n < 3 || n > 2048 {
        return None;
    }
    if is_static_asset(s.as_str()) {
        return None;
    }
    if !(has_char(v.as_slice(), '/') || has_char(v.as_slice(), '?')) {
        return None;
    }
    Some(s)
}

/// Candidates kept, in order, each once.
pub open spec fn endpoint_list(cands: Seq<Seq<char>>) -> Seq<Seq<char>>
    decreases cands.len(),
{
    if cands.len() == 0 {
        seq![]
    } else {
        let p = endpoint_list(cands.drop_last());
        match clean_endpoint_spec(cands.last()) {
            Some(v) => if p.contains(v) {
                p
            } else {
                p.push(v)
            },
            None => p,
        }
    }
}

/// Endpoint pattern: absolute and protocol-relative URLs.
pub open spec fn full_url_pattern() -> Seq<char> {
    "(?:https?:)?//[A-Za-z0-9_.\\-]+(?::\\d+)?(?:/[^\\s\"'<>\\\\]*)"@
}

/// Endpoint pattern: quoted path literals with at least two segments.
pub open spec fn path_literal_pattern() -> Seq<char> {
    "[\"'`](/[A-Za-z0-9_.\\-{}$]*(?:/[A-Za-z0-9_.?=&%{}:\\-]+)+)[\"'`]"@
}

/// Endpoint pattern: WebSocket URLs.
pub open spec fn ws_url_pattern() -> Seq<char> {
    "wss?://[A-Za-z0-9_.\\-]+(?::\\d+)?(?:/[^\\s\"'<>\\\\]*)?"@
}

/// Every endpoint-looking string of a text: WebSocket URLs, then URLs,
/// then path literals.
pub open spec fn endpoint_candidates(text: Seq<char>) -> Seq<Seq<char>> {
    matches_of(ws_url_pattern(), text, 0) + matches_of(full_url_pattern(), text, 0) + matches_of(
        path_literal_pattern(),
        text,
        1,
    )
}

/// An endpoint under `/api/`, `/graphql` or `/wp-json`.
pub open spec fn is_api(u: Seq<char>) -> bool {
    contains(u, "/api/"@) || contains(u, "/graphql"@) || contains(u, "/wp-json"@)
}

pub fn is_api_exec(u: &str) -> (b: bool)
    ensures
        b == is_api(u@),
{
    str_contains(u, "/api/") || str_contains(u, "/graphql") || str_contains(u, "/wp-json")
}

/// The order endpoints are listed in: API paths first, then by length.
pub open spec fn ep_before(a: Seq<char>, b: Seq<char>) -> bool {
    (is_api(a) && !is_api(b)) || (is_api(a) == is_api(b) && utf8_len(a) < utf8_len(b))
}

/// Where `x` goes in a sorted list: after everything not after it.
pub open spec fn ep_pos(t: Seq<Seq<char>>, x: Seq<char>) -> int
    decreases t.len(),
{
    if t.len() == 0 {
        0
    } else if ep_before(x, t[0]) {
        0
    } else {
        1 + ep_pos(t.drop_first(), x)
    }
}

/// The stable sort: API paths first, then by length.
pub open spec fn ep_sort(s: Seq<Seq<char>>) -> Seq<Seq<char>>
    decreases s.len(),
{
    if s.len() == 0 {
        seq![]
    } else {
        let t = ep_sort(s.drop_last());
        t.insert(ep_pos(t, s.last()), s.last())
    }
}

pub proof fn lemma_ep_pos(t: Seq<Seq<char>>, x: Seq<char>)
    ensures
        0 <= ep_pos(t, x) <= t.len(),
    decreases t.len(),
{
    if t.len() > 0 && !ep_before(x, t[0]) {
        lemma_ep_pos(t.drop_first(), x);
    }
}

fn sort_endpoints(v: Vec<String>) -> (r: Vec<String>)
    ensures
        strs_view(r@) == ep_sort(strs_view(v@)),
{
    let ghost input = strs_view(v@);
    let mut out: Vec<String> = Vec::new();
    let mut keys: Vec<(bool, usize)> = Vec::new();
    let mut k: usize = 0;
    while k < v.len()
        invariant
            k <= v@.len(),
            input == strs_view(v@),
            strs_view(out@) == ep_sort(input.take(k as int)),
            keys@.len() == out@.len(),
            forall|j: int|
                0 <= j < out@.len() ==> (#[trigger] keys@[j]).0 == is_api(out@[j]@) && keys@[j].1
                    == utf8_len(out@[j]@),
        decreases v@.len() - k,
    {
        assert(input.take(k + 1).drop_last() =~= input.take(k as int));
        assert(input.take(k + 1).last() == v@[k as int]@);
        let x = v[k].clone();
        let xa = is_api_exec(x.as_str());
        let xl = byte_len(x.as_str());
        let ghost t = strs_view(out@);
        proof {
            lemma_ep_pos(t, x@);
        }
        let mut pos: usize = 0;
        assert(t.skip(0) =~= t);
        while pos < out.len() && !((xa && !keys[pos].0) || (xa == keys[pos].0 && xl < keys[pos].1))
            invariant
                pos <= out@.len(),
                t == strs_view(out@),
                keys@.len() == out@.len(),
                forall|j: int|
                    0 <= j < out@.len() ==> (#[trigger] keys@[j]).0 == is_api(out@[j]@)
                        && keys@[j].1 == utf8_len(out@[j]@),
                xa == is_api(x@),
                xl == utf8_len(x@),
                ep_pos(t, x@) == pos + ep_pos(t.skip(pos as int), x@),
            decreases out@.len() - pos,
        {
            assert(keys@[pos as int].0 == is_api(out@[pos as int]@));
            assert(t.skip(pos as int)[0] == out@[pos as int]@);
            assert(t.skip(pos as int).drop_first() =~= t.skip(pos + 1));
            pos = pos + 1;
        }
        proof {
            if pos < out@.len() {
                assert(keys@[pos as int].0 == is_api(out@[pos as int]@));
                assert(t.skip(pos as int)[0] == out@[pos as int]@);
            } else {
                assert(t.skip(pos as int) =~= Seq::<Seq<char>>::empty());
            }
        }
        let ghost xv = x@;
        let ghost kprev = keys@;
        out.insert(pos, x);
        keys.insert(pos, (xa, xl));
        assert(strs_view(out@) =~= t.insert(pos as int, xv));
        assert forall|j: int|
            0 <= j < out@.len() implies (#[trigger] keys@[j]).0 == is_api(out@[j]@) && keys@[j].1
            == utf8_len(out@[j]@) by {
            if j < pos {
            } else if j == pos {
            } else {
                assert(keys@[j] == kprev[j - 1]);
            }
        }
        k = k + 1;
    }
    assert(input.take(v@.len() as int) =~= input);
    out
}

/// The endpoints found in one text.
pub open spec fn scan_endpoints_spec(text: Seq<char>) -> Seq<Seq<char>> {
    ep_sort(endpoint_list(endpoint_candidates(text)))
}

fn push_endpoints(out: &mut Vec<String>, cands: &Vec<String>, Ghost(before): Ghost<Seq<Seq<char>>>)
    requires
        strs_view(old(out)@) == endpoint_list(before),
    ensures
        strs_view(final(out)@) == endpoint_list(before + strs_view(cands@)),
{
    let ghost cv = strs_view(cands@);
    let mut i: usize = 0;
    assert(before + cv.take(0) =~= before);
    while i < cands.len()
        invariant
            i <= cands@.len(),
            cv == strs_view(cands@),
            strs_view(out@) == endpoint_list(before + cv.take(i as int)),
        decreases cands@.len() - i,
    {
        let ghost all = before + cv.take(i + 1);
        assert(all.drop_last() =~= before + cv.take(i as int));
        assert(all.last() == cands@[i as int]@);
        match clean_endpoint(cands[i].as_str()) {
            Some(v) => {
                let ghost prev = strs_view(out@);
                let mut seen = false;
                let mut j: usize = 0;
                while j < out.len()
                    invariant
                        j <= out@.len(),
                        prev == strs_view(out@),
                        seen == prev.take(j as int).contains(v@),
                    decreases out@.len() - j,
                {
                    let ghost a = prev.take(j as int);
                    let ghost b = prev.take(j + 1);
                    assert(b =~= a.push(out@[j as int]@));
                    let eq = str_eq(out[j].as_str(), v.as_str());
                    proof {
                        if a.contains(v@) {
                            let w = choose|w: int| 0 <= w < a.len() && a[w] == v@;
                            assert(b[w] == v@);
                        }
                        if eq {
                            assert(b[j as int] == v@);
                        }
                        if b.contains(v@) && !eq {
                            let w = choose|w: int| 0 <= w < b.len() && b[w] == v@;
                            assert(a[w] == v@);
                        }
                    }
                    if eq {
                        seen = true;
                    }
                    j = j + 1;
                }
                assert(prev.take(out@.len() as int) =~= prev);
                if !seen {
                    out.push(v);
                    assert(strs_view(out@) =~= prev.push(v@));
                }
            },
            None => {},
        }
        i = i + 1;
    }
    assert(cv.take(cands@.len() as int) =~= cv);
}

/// Collects the endpoint-looking strings of one text, API paths last.
pub fn scan_endpoints(text: &str) -> (r: Vec<String>)
    ensures
        strs_view(r@) == scan_endpoints_spec(text@),
{
    let ws = group_matches(
        "wss?://[A-Za-z0-9_.\\-]+(?::\\d+)?(?:/[^\\s\"'<>\\\\]*)?",
        text,
        0,
    );
    let urls = group_matches("(?:https?:)?//[A-Za-z0-9_.\\-]+(?::\\d+)?(?:/[^\\s\"'<>\\\\]*)", text, 0);
    let paths = group_matches(
        "[\"'`](/[A-Za-z0-9_.\\-{}$]*(?:/[A-Za-z0-9_.?=&%{}:\\-]+)+)[\"'`]",
        text,
        1,
    );
    let mut out: Vec<String> = Vec::new();
    assert(strs_view(out@) =~= endpoint_list(Seq::<Seq<char>>::empty()));
    push_endpoints(&mut out, &ws, Ghost(Seq::<Seq<char>>::empty()));
    assert(Seq::<Seq<char>>::empty() + strs_view(ws@) =~= strs_view(ws@));
    push_endpoints(&mut out, &urls, Ghost(strs_view(ws@)));
    push_endpoints(&mut out, &paths, Ghost(strs_view(ws@) + strs_view(urls@)));
    sort_endpoints(out)
}

// ─── Secrets ────────────────────────────────────────────────────────────────

/// Number of secret rules.
pub const SECRET_RULES: usize = 12;

pub open spec fn secret_label(k: int) -> Seq<char> {
    if k == 0 {
        "AWS access key"@
    } else if k == 1 {
        "AWS secret"@
    } else if k == 2 {
        "Google API key"@
    } else if k == 3 {
        "OpenAI key"@
    } else if k == 4 {
        "GitHub token"@
    } else if k == 5 {
        "Slack token"@
    } else if k == 6 {
        "JWT"@
    } else if k == 7 {
        "Private key"@
    } else if k == 8 {
        "MongoDB URI"@
    } else if k == 9 {
        "S3 bucket"@
    } else if k == 10 {
        "Generic secret"@
    } else {
        "Password"@
    }
}

pub open spec fn secret_pattern(k: int) -> Seq<char> {
    if k == 0 {
        r"\b(AKIA[0-9A-Z]{16})\b"@
    } else if k == 1 {
        r#"(?i)\b(aws_secret_access_key)\s*[:=]\s*['"]?([A-Za-z0-9/+=]{16,40})"#@
    } else if k == 2 {
        r"\b(AIza[0-9A-Za-z_\-]{30,})\b"@
    } else if k == 3 {
        r"\b(sk-[A-Za-z0-9_\-]{20,})\b"@
    } else if k == 4 {
        r"\b(ghp_[A-Za-z0-9]{30,}|github_pat_[A-Za-z0-9_]{20,}|gho_[A-Za-z0-9]{30,})\b"@
    } else if k == 5 {
        r"\b(xox[baprs]-[A-Za-z0-9\-]{10,})\b"@
    } else if k == 6 {
        r"\b(eyJ[A-Za-z0-9_\-]{8,}\.[A-Za-z0-9_\-]{8,}\.[A-Za-z0-9_\-]{8,})\b"@
    } else if k == 7 {
        r"(-----BEGIN [A-Z ]*PRIVATE KEY-----)"@
    } else if k == 8 {
        r#"\b(mongodb(?:\+srv)?://[^\s"'<>\\]+)"#@
    } else if k == 9 {
        r"\b(s3://[a-z0-9.\-]+)\b"@
    } else if k == 10 {
        r#"(?i)\b(api[_-]?key|client[_-]?secret|access[_-]?token|auth[_-]?token|refresh[_-]?token|secret)\b['"]?\s*[:=]\s*['"]([^'"]{6,80})['"]"#@
    } else {
        r#"(?i)\b(password|passwd|pwd)\b['"]?\s*[:=]\s*['"]([^'"]{6,80})['"]"#@
    }
}

fn secret_rule(k: usize) -> (r: (&'static str, &'static str))
    requires
        k < SECRET_RULES,
    ensures
        r.0@ == secret_label(k as int),
        r.1@ == secret_pattern(k as int),
{
    if k == 0 {
        ("AWS access key", r"\b(AKIA[0-9A-Z]{16})\b")
    } else if k == 1 {
        ("AWS secret", r#"(?i)\b(aws_secret_access_key)\s*[:=]\s*['"]?([A-Za-z0-9/+=]{16,40})"#)
    } else if k == 2 {
        ("Google API key", r"\b(AIza[0-9A-Za-z_\-]{30,})\b")
    } else if k == 3 {
        ("OpenAI key", r"\b(sk-[A-Za-z0-9_\-]{20,})\b")
    } else if k == 4 {
        (
            "GitHub token",
            r"\b(ghp_[A-Za-z0-9]{30,}|github_pat_[A-Za-z0-9_]{20,}|gho_[A-Za-z0-9]{30,})\b",
        )
    } else if k == 5 {
        ("Slack token", r"\b(xox[baprs]-[A-Za-z0-9\-]{10,})\b")
    } else if k == 6 {
        ("JWT", r"\b(eyJ[A-Za-z0-9_\-]{8,}\.[A-Za-z0-9_\-]{8,}\.[A-Za-z0-9_\-]{8,})\b")
    } else if k == 7 {
        ("Private key", r"(-----BEGIN [A-Z ]*PRIVATE KEY-----)")
    } else if k == 8 {
        ("MongoDB URI", r#"\b(mongodb(?:\+srv)?://[^\s"'<>\\]+)"#)
    } else if k == 9 {
        ("S3 bucket", r"\b(s3://[a-z0-9.\-]+)\b")
    } else if k == 10 {
        (
            "Generic secret",
            r#"(?i)\b(api[_-]?key|client[_-]?secret|access[_-]?token|auth[_-]?token|refresh[_-]?token|secret)\b['"]?\s*[:=]\s*['"]([^'"]{6,80})['"]"#,
        )
    } else {
        ("Password", r#"(?i)\b(password|passwd|pwd)\b['"]?\s*[:=]\s*['"]([^'"]{6,80})['"]"#)
    }
}

/// The value a match yields: its last group, else group 1, else nothing.
pub open spec fn secret_pick(row: Seq<Option<Seq<char>>>) -> Seq<char> {
    if row.len() >= 1 && row[row.len() - 1] is Some {
        row[row.len() - 1]->Some_0
    } else if row.len() > 1 && row[1] is Some {
        row[1]->Some_0
    } else {
        seq![]
    }
}

/// The (label, value) pairs of a rule's matches whose trimmed value has at
/// least 6 bytes.
pub open spec fn row_secrets(label: Seq<char>, rows: Seq<Seq<Option<Seq<char>>>>) -> Seq<
    (Seq<char>, Seq<char>),
>
    decreases rows.len(),
{
    if rows.len() == 0 {
        seq![]
    } else {
        let p = row_secrets(label, rows.drop_last());
        let v = trim(secret_pick(rows.last()));
        if utf8_len(v) < 6 {
            p
        } else {
            p.push((label, v))
        }
    }
}

pub open spec fn rule_secrets(k: int, text: Seq<char>) -> Seq<(Seq<char>, Seq<char>)> {
    if regex_compiles(secret_pattern(k)) {
        row_secrets(secret_label(k), regex_captures_of(secret_pattern(k), text))
    } else {
        seq![]
    }
}

/// The pairs of the first `n` rules, rule by rule.
pub open spec fn secret_candidates(text: Seq<char>, n: nat) -> Seq<(Seq<char>, Seq<char>)>
    decreases n,
{
    if n == 0 {
        seq![]
    } else {
        secret_candidates(text, (n - 1) as nat) + rule_secrets(n - 1, text)
    }
}

/// Each pair once, in order of first appearance.
pub open spec fn dedup_pairs(s: Seq<(Seq<char>, Seq<char>)>) -> Seq<(Seq<char>, Seq<char>)>
    decreases s.len(),
{
    if s.len() == 0 {
        seq![]
    } else {
        let p = dedup_pairs(s.drop_last());
        if p.contains(s.last()) {
            p
        } else {
            p.push(s.last())
        }
    }
}

/// Values are shown at most 60 chars long.
pub open spec fn shown(p: Seq<(Seq<char>, Seq<char>)>) -> Seq<(Seq<char>, Seq<char>)> {
    p.map_values(|e: (Seq<char>, Seq<char>)| (e.0, spec_safe_prefix(e.1, 60)))
}

/// The secrets found in one text.
pub open spec fn scan_secrets_spec(text: Seq<char>) -> Seq<(Seq<char>, Seq<char>)> {
    shown(dedup_pairs(secret_candidates(text, SECRET_RULES as nat)))
}

pub open spec fn secrets_view(v: Seq<Secret>) -> Seq<(Seq<char>, Seq<char>)> {
    v.map_values(|s: Secret| (s.key@, s.value@))
}

fn pairs_contain(v: &Vec<(String, String)>, a: &str, b: &str) -> (r: bool)
    ensures
        r == pairs_view(v@).contains((a@, b@)),
{
    let ghost pv = pairs_view(v@);
    let mut i: usize = 0;
    while i < v.len()
        invariant
            i <= v@.len(),
            pv == pairs_view(v@),
            forall|j: int| 0 <= j < i ==> pv[j] != (a@, b@),
        decreases v@.len() - i,
    {
        if str_eq(v[i].0.as_str(), a) && str_eq(v[i].1.as_str(), b) {
            assert(pv[i as int] == (a@, b@));
            return true;
        }
        i = i + 1;
    }
    false
}

/// Scans one text with every secret rule; a value is reported once per
/// rule and cut to 60 chars.
pub fn scan_secrets(text: &str) -> (r: Vec<Secret>)
    ensures
        secrets_view(r@) == scan_secrets_spec(text@),
{
    let mut seen: Vec<(String, String)> = Vec::new();
    let mut out: Vec<Secret> = Vec::new();
    let mut k: usize = 0;
    assert(pairs_view(seen@) =~= dedup_pairs(secret_candidates(text@, 0)));
    assert(secrets_view(out@) =~= shown(pairs_view(seen@)));
    while k < SECRET_RULES
        invariant
            k <= SECRET_RULES,
            pairs_view(seen@) == dedup_pairs(secret_candidates(text@, k as nat)),
            secrets_view(out@) == shown(pairs_view(seen@)),
        decreases SECRET_RULES - k,
    {
        let ghost base = secret_candidates(text@, k as nat);
        let (label, pattern) = secret_rule(k);
        match regex_captures(pattern, text) {
            None => {
                assert(base + rule_secrets(k as int, text@) =~= base);
            },
            Some(rows) => {
                let ghost rv = rows_view(rows@);
                let mut i: usize = 0;
                assert(base + row_secrets(label@, rv.take(0)) =~= base);
                while i < rows.len()
                    invariant
                        i <= rows@.len(),
                        rv == rows_view(rows@),
                        rv == regex_captures_of(pattern@, text@),
                        label@ == secret_label(k as int),
                        pairs_view(seen@) == dedup_pairs(base + row_secrets(label@, rv.take(i as int))),
                        secrets_view(out@) == shown(pairs_view(seen@)),
                        forall|j: int|
                            0 <= j < rows@.len() ==> (#[trigger] rows@[j])@.len() >= 1
                                && rows@[j]@[0] is Some,
                    decreases rows@.len() - i,
                {
                    let ghost all = base + row_secrets(label@, rv.take(i + 1));
                    assert(rv.take(i + 1).drop_last() =~= rv.take(i as int));
                    assert(rv.take(i + 1).last() == row_view(rows@[i as int]@));
                    let row = &rows[i];
                    let n = row.len();
                    let last = &row[n - 1];
                    let picked: String = match last {
                        Some(t) => t.clone(),
                        None => if n > 1 {
                            match &row[1] {
                                Some(t) => t.clone(),
                                None => lit(""),
                            }
                        } else {
                            lit("")
                        },
                    };
                    proof {
                        reveal_strlit("");
                        assert(row_view(row@)[n - 1] == ov(row@[n - 1]));
                        if n > 1 {
                            assert(row_view(row@)[1] == ov(row@[1]));
                        }
                    }
                    assert(picked@ =~= secret_pick(row_view(row@)));
                    let v = trim_str(picked.as_str());
                    if byte_len(v.as_str()) >= 6 {
                        let ghost prev = row_secrets(label@, rv.take(i as int));
                        assert(all =~= (base + prev).push((label@, v@)));
                        assert(all.drop_last() =~= base + prev);
                        if !pairs_contain(&seen, label, v.as_str()) {
                            let ghost sprev = pairs_view(seen@);
                            let ghost oprev = secrets_view(out@);
                            let shown_v = lit(safe_prefix(v.as_str(), 60));
                            out.push(Secret { key: lit(label), value: shown_v });
                            seen.push((lit(label), v));
                            assert(pairs_view(seen@) =~= sprev.push((label@, v@)));
                            assert(secrets_view(out@) =~= oprev.push(
                                (label@, spec_safe_prefix(v@, 60)),
                            ));
                            assert(secrets_view(out@) =~= shown(pairs_view(seen@)));
                        }
                    } else {
                        assert(all =~= base + row_secrets(label@, rv.take(i as int)));
                    }
                    i = i + 1;
                }
                assert(rv.take(rows@.len() as int) =~= rv);
            },
        }
        assert(secret_candidates(text@, (k + 1) as nat) == base + rule_secrets(k as int, text@));
        k = k + 1;
    }
    out
}

// ─── Script references ──────────────────────────────────────────────────────

/// Pattern of a `<script src=...>` reference; group 1 is the reference.
pub open spec fn script_src_pattern() -> Seq<char> {
    r#"<script[^>]*\bsrc\s*=\s*["']([^"']+)["']"#@
}

/// References resolved against the page URL, each once.
pub open spec fn resolved_refs(target: Seq<char>, raws: Seq<Seq<char>>) -> Seq<Seq<char>>
    decreases raws.len(),
{
    if raws.len() == 0 {
        seq![]
    } else {
        let p = resolved_refs(target, raws.drop_last());
        match resolve_url_spec(target, raws.last()) {
            Some(u) => if p.contains(u) {
                p
            } else {
                p.push(u)
            },
            None => p,
        }
    }
}

/// The scripts fetched for a page: its distinct resolved references, at
/// most `MAX_SCRIPTS` of them.
pub open spec fn script_refs_spec(target: Seq<char>, html: Seq<char>) -> Seq<Seq<char>> {
    let all = resolved_refs(target, matches_of(script_src_pattern(), html, 1));
    if all.len() > MAX_SCRIPTS {
        all.take(MAX_SCRIPTS as int)
    } else {
        all
    }
}

fn strings_contain(v: &Vec<String>, x: &str) -> (r: bool)
    ensures
        r == strs_view(v@).contains(x@),
{
    let ghost sv = strs_view(v@);
    let mut i: usize = 0;
    while i < v.len()
        invariant
            i <= v@.len(),
            sv == strs_view(v@),
            forall|j: int| 0 <= j < i ==> sv[j] != x@,
        decreases v@.len() - i,
    {
        if str_eq(v[i].as_str(), x) {
            assert(sv[i as int] == x@);
            return true;
        }
        i = i + 1;
    }
    false
}

pub fn script_refs(target: &str, html: &str) -> (r: Vec<String>)
    ensures
        strs_view(r@) == script_refs_spec(target@, html@),
{
    let raws = group_matches(r#"<script[^>]*\bsrc\s*=\s*["']([^"']+)["']"#, html, 1);
    let ghost rv = strs_view(raws@);
    let mut refs: Vec<String> = Vec::new();
    let mut i: usize = 0;
    while i < raws.len()
        invariant
            i <= raws@.len(),
            rv == strs_view(raws@),
            strs_view(refs@) == resolved_refs(target@, rv.take(i as int)),
        decreases raws@.len() - i,
    {
        assert(rv.take(i + 1).drop_last() =~= rv.take(i as int));
        assert(rv.take(i + 1).last() == raws@[i as int]@);
        match resolve_url(target, raws[i].as_str()) {
            Some(u) => {
                if !strings_contain(&refs, u.as_str()) {
                    let ghost prev = strs_view(refs@);
                    let ghost uv = u@;
                    refs.push(u);
                    assert(strs_view(refs@) =~= prev.push(uv));
                }
            },
            None => {},
        }
        i = i + 1;
    }
    assert(rv.take(raws@.len() as int) =~= rv);
    if refs.len() > MAX_SCRIPTS {
        refs.truncate(MAX_SCRIPTS);
        assert(strs_view(refs@) =~= script_refs_spec(target@, html@));
    }
    refs
}

/// A target that names a script is fetched directly, not parsed as a page.
pub open spec fn is_js_target_spec(target: Seq<char>) -> bool {
    contains(str_to_lowercase(target), ".js"@)
}

pub fn is_js_target(target: &str) -> (b: bool)
    ensures
        b == is_js_target_spec(target@),
{
    str_contains(lowercase(target).as_str(), ".js")
}

// ─── Fetch checks ───────────────────────────────────────────────────────────

/// Whether a fetched body is read: a 2xx status, and a `Content-Length`
/// (where it parses) not over the limit.
pub open spec fn fetch_check_spec(status: u16, content_length: Option<Seq<char>>, max_bytes: usize) -> Result<
    (),
    Seq<char>,
> {
    if !(200 <= status < 300) {
        Err("HTTP "@ + status_display(status))
    } else if match content_length {
        Some(v) => match parse_unsigned_spec(v, usize::MAX as nat) {
            Some(n) => n > max_bytes,
            None => false,
        },
        None => false,
    } {
        Err("Response too large (>"@ + decimal(max_bytes as nat) + " bytes)"@)
    } else {
        Ok(())
    }
}

pub fn fetch_check(status: u16, content_length: Option<&str>, max_bytes: usize) -> (r: Result<
    (),
    String,
>)
    ensures
        match r {
            Ok(()) => fetch_check_spec(
                status,
                match content_length {
                    Some(v) => Some(v@),
                    None => None,
                },
                max_bytes,
            ) is Ok,
            Err(e) => fetch_check_spec(
                status,
                match content_length {
                    Some(v) => Some(v@),
                    None => None,
                },
                max_bytes,
            ) == Err::<(), Seq<char>>(e@),
        },
{
    if !(200 <= status && status < 300) {
        let mut m = chars_of("HTTP ");
        push_str(&mut m, status_text(status).as_str());
        return Err(string_of(m.as_slice()));
    }
    let too_big = match content_length {
        Some(v) => match parse_unsigned(chars_of(v).as_slice(), usize::MAX as u64) {
            Some(n) => n > max_bytes as u64,
            None => false,
        },
        None => false,
    };
    if too_big {
        let mut m = chars_of("Response too large (>");
        push_all(&mut m, decimal_chars(max_bytes as u64).as_slice());
        push_str(&mut m, " bytes)");
        return Err(string_of(m.as_slice()));
    }
    Ok(())
}

// ─── The answer ─────────────────────────────────────────────────────────────

/// One fetched script: its URL and its body or the fetch error.
pub struct ScriptFetch {
    pub url: String,
    pub body: Result<String, String>,
}

/// What was fetched: the scripts (URL, byte size), the texts scanned, the
/// error reported.
pub struct Collected {
    pub scripts: Seq<(Seq<char>, nat)>,
    pub bodies: Seq<Seq<char>>,
    pub error: Option<Seq<char>>,
}

pub open spec fn fetch_v(f: ScriptFetch) -> (Seq<char>, Result<Seq<char>, Seq<char>>) {
    (f.url@, res_view(f.body))
}

/// The page, then each script fetched; the first failed script sets the
/// error unless the page already did.
pub open spec fn script_fold(
    html: Seq<char>,
    err0: Option<Seq<char>>,
    fetches: Seq<(Seq<char>, Result<Seq<char>, Seq<char>>)>,
) -> Collected
    decreases fetches.len(),
{
    if fetches.len() == 0 {
        Collected { scripts: seq![], bodies: seq![html], error: err0 }
    } else {
        let c = script_fold(html, err0, fetches.drop_last());
        let (u, r) = fetches.last();
        match r {
            Ok(b) => Collected {
                scripts: c.scripts.push((u, utf8_len(b))),
                bodies: c.bodies.push(b),
                error: c.error,
            },
            Err(e) => if c.error is None {
                Collected { scripts: c.scripts, bodies: c.bodies, error: Some(u + ": "@ + e) }
            } else {
                c
            },
        }
    }
}

/// What a run collected. A direct script target has only its own body; a
/// page has its HTML (when non-empty) followed by its scripts.
pub open spec fn collect_spec(
    target: Seq<char>,
    direct: bool,
    first: Result<Seq<char>, Seq<char>>,
    fetches: Seq<(Seq<char>, Result<Seq<char>, Seq<char>>)>,
) -> Collected {
    if direct {
        match first {
            Ok(b) => Collected { scripts: seq![(target, utf8_len(b))], bodies: seq![b], error: None },
            Err(e) => Collected { scripts: seq![], bodies: seq![], error: Some(e) },
        }
    } else {
        let (html, err0) = match first {
            Ok(h) => (h, None),
            Err(e) => (seq![], Some(e)),
        };
        if html.len() == 0 {
            Collected { scripts: seq![], bodies: seq![], error: err0 }
        } else {
            script_fold(html, err0, fetches)
        }
    }
}

/// `acc` followed by the items of `xs` it does not hold yet.
pub open spec fn append_new<V>(acc: Seq<V>, xs: Seq<V>) -> Seq<V>
    decreases xs.len(),
{
    if xs.len() == 0 {
        acc
    } else {
        let p = append_new(acc, xs.drop_last());
        if p.contains(xs.last()) {
            p
        } else {
            p.push(xs.last())
        }
    }
}

pub open spec fn merged_endpoints(bodies: Seq<Seq<char>>) -> Seq<Seq<char>>
    decreases bodies.len(),
{
    if bodies.len() == 0 {
        seq![]
    } else {
        append_new(merged_endpoints(bodies.drop_last()), scan_endpoints_spec(bodies.last()))
    }
}

pub open spec fn merged_secrets(bodies: Seq<Seq<char>>) -> Seq<(Seq<char>, Seq<char>)>
    decreases bodies.len(),
{
    if bodies.len() == 0 {
        seq![]
    } else {
        append_new(merged_secrets(bodies.drop_last()), scan_secrets_spec(bodies.last()))
    }
}

pub open spec fn api_count(s: Seq<Seq<char>>) -> nat
    decreases s.len(),
{
    if s.len() == 0 {
        0
    } else {
        api_count(s.drop_last()) + if is_api(s.last()) {
            1nat
        } else {
            0nat
        }
    }
}

pub open spec fn cap<V>(s: Seq<V>, n: nat) -> Seq<V> {
    if s.len() > n {
        s.take(n as int)
    } else {
        s
    }
}

pub open spec fn scripts_view(v: Seq<ScriptRef>) -> Seq<(Seq<char>, nat)> {
    v.map_values(|r: ScriptRef| (r.url@, r.size as nat))
}

fn append_new_strings(acc: &mut Vec<String>, xs: Vec<String>)
    ensures
        strs_view(final(acc)@) == append_new(strs_view(old(acc)@), strs_view(xs@)),
{
    let ghost a0 = strs_view(acc@);
    let ghost xv = strs_view(xs@);
    let mut i: usize = 0;
    while i < xs.len()
        invariant
            i <= xs@.len(),
            xv == strs_view(xs@),
            strs_view(acc@) == append_new(a0, xv.take(i as int)),
        decreases xs@.len() - i,
    {
        assert(xv.take(i + 1).drop_last() =~= xv.take(i as int));
        assert(xv.take(i + 1).last() == xs@[i as int]@);
        if !strings_contain(acc, xs[i].as_str()) {
            let ghost prev = strs_view(acc@);
            acc.push(xs[i].clone());
            assert(strs_view(acc@) =~= prev.push(xs@[i as int]@));
        }
        i = i + 1;
    }
    assert(xv.take(xs@.len() as int) =~= xv);
}

fn secrets_contain(v: &Vec<Secret>, a: &str, b: &str) -> (r: bool)
    ensures
        r == secrets_view(v@).contains((a@, b@)),
{
    let ghost sv = secrets_view(v@);
    let mut i: usize = 0;
    while i < v.len()
        invariant
            i <= v@.len(),
            sv == secrets_view(v@),
            forall|j: int| 0 <= j < i ==> sv[j] != (a@, b@),
        decreases v@.len() - i,
    {
        if str_eq(v[i].key.as_str(), a) && str_eq(v[i].value.as_str(), b) {
            assert(sv[i as int] == (a@, b@));
            return true;
        }
        i = i + 1;
    }
    false
}

fn append_new_secrets(acc: &mut Vec<Secret>, xs: Vec<Secret>)
    ensures
        secrets_view(final(acc)@) == append_new(secrets_view(old(acc)@), secrets_view(xs@)),
{
    let ghost a0 = secrets_view(acc@);
    let ghost xv = secrets_view(xs@);
    let mut i: usize = 0;
    while i < xs.len()
        invariant
            i <= xs@.len(),
            xv == secrets_view(xs@),
            secrets_view(acc@) == append_new(a0, xv.take(i as int)),
        decreases xs@.len() - i,
    {
        assert(xv.take(i + 1).drop_last() =~= xv.take(i as int));
        assert(xv.take(i + 1).last() == (xs@[i as int].key@, xs@[i as int].value@));
        if !secrets_contain(acc, xs[i].key.as_str(), xs[i].value.as_str()) {
            let ghost prev = secrets_view(acc@);
            acc.push(Secret { key: xs[i].key.clone(), value: xs[i].value.clone() });
            assert(secrets_view(acc@) =~= prev.push(xv[i as int]));
        }
        i = i + 1;
    }
    assert(xv.take(xs@.len() as int) =~= xv);
}

/// Builds the analysis answer from what was fetched: `first` is the target
/// itself (a direct script) or its page; `fetches` are the page's scripts
/// in the order of `script_refs` (ignored for a direct script, and when the
/// page is empty).
pub fn js_report(
    target: &str,
    direct: bool,
    first: &Result<String, String>,
    fetches: &Vec<ScriptFetch>,
    duration_ms: u64,
) -> (r: JsAnalysisResponse)
    ensures
        ({
            let c = collect_spec(
                target@,
                direct,
                res_view(*first),
                fetches@.map_values(|f: ScriptFetch| fetch_v(f)),
            );
            let eps = merged_endpoints(c.bodies);
            let secs = merged_secrets(c.bodies);
            &&& r.url@ == target@
            &&& r.installed
            &&& scripts_view(r.scripts@) == c.scripts
            &&& strs_view(r.endpoints@) == cap(eps, MAX_ENDPOINTS as nat)
            &&& secrets_view(r.secrets@) == cap(secs, MAX_SECRETS as nat)
            &&& r.counts.scripts == c.scripts.len()
            &&& r.counts.endpoints == cap(eps, MAX_ENDPOINTS as nat).len()
            &&& r.counts.api_endpoints == api_count(eps)
            &&& r.counts.secrets == cap(secs, MAX_SECRETS as nat).len()
            &&& r.raw@ == spec_truncate_output(join(c.bodies, "\n\n"@), MAX_RAW_CHARS as nat)
            &&& ov(r.error) == c.error
            &&& r.duration_ms == duration_ms
            &&& r.command@ == "builtin (native HTTP + regex)"@
        }),
{
    let ghost fv = fetches@.map_values(|f: ScriptFetch| fetch_v(f));
    let mut scripts: Vec<ScriptRef> = Vec::new();
    let mut bodies: Vec<Vec<char>> = Vec::new();
    let mut error: Option<String> = None;
    if direct {
        match first {
            Ok(b) => {
                scripts.push(ScriptRef { url: lit(target), size: byte_len(b.as_str()) });
                bodies.push(chars_of(b.as_str()));
            },
            Err(e) => {
                error = Some(e.clone());
            },
        }
        assert(scripts_view(scripts@) =~= collect_spec(target@, direct, res_view(*first), fv).scripts);
        assert(seqs_view(bodies@) =~= collect_spec(target@, direct, res_view(*first), fv).bodies);
    } else {
        let html = match first {
            Ok(h) => h.clone(),
            Err(e) => {
                error = Some(e.clone());
                proof {
                    reveal_strlit("");
                }
                lit("")
            },
        };
        let hv = chars_of(html.as_str());
        if hv.len() > 0 {
            bodies.push(hv);
            let mut i: usize = 0;
            assert(fv.take(0) =~= Seq::<(Seq<char>, Result<Seq<char>, Seq<char>>)>::empty());
            assert(scripts_view(scripts@) =~= Seq::<(Seq<char>, nat)>::empty());
            while i < fetches.len()
                invariant
                    i <= fetches@.len(),
                    fv == fetches@.map_values(|f: ScriptFetch| fetch_v(f)),
                    scripts_view(scripts@) == script_fold(html@, match res_view(*first) {
                        Ok(_) => None,
                        Err(e) => Some(e),
                    }, fv.take(i as int)).scripts,
                    seqs_view(bodies@) == script_fold(html@, match res_view(*first) {
                        Ok(_) => None,
                        Err(e) => Some(e),
                    }, fv.take(i as int)).bodies,
                    ov(error) == script_fold(html@, match res_view(*first) {
                        Ok(_) => None,
                        Err(e) => Some(e),
                    }, fv.take(i as int)).error,
                decreases fetches@.len() - i,
            {
                assert(fv.take(i + 1).drop_last() =~= fv.take(i as int));
                assert(fv.take(i + 1).last() == fetch_v(fetches@[i as int]));
                let f = &fetches[i];
                match &f.body {
                    Ok(b) => {
                        let ghost sp = scripts_view(scripts@);
                        let ghost bp = seqs_view(bodies@);
                        scripts.push(ScriptRef { url: f.url.clone(), size: byte_len(b.as_str()) });
                        bodies.push(chars_of(b.as_str()));
                        assert(scripts_view(scripts@) =~= sp.push((f.url@, utf8_len(b@))));
                        assert(seqs_view(bodies@) =~= bp.push(b@));
                    },
                    Err(e) => {
                        if error.is_none() {
                            let mut m = chars_of(f.url.as_str());
                            push_str(&mut m, ": ");
                            push_all(&mut m, chars_of(e.as_str()).as_slice());
                            error = Some(string_of(m.as_slice()));
                        }
                    },
                }
                i = i + 1;
            }
            assert(fv.take(fetches@.len() as int) =~= fv);
        } else {
            assert(scripts_view(scripts@) =~= Seq::<(Seq<char>, nat)>::empty());
            assert(seqs_view(bodies@) =~= Seq::<Seq<char>>::empty());
        }
    }
    let ghost c = collect_spec(target@, direct, res_view(*first), fv);
    assert(scripts_view(scripts@) == c.scripts);
    assert(seqs_view(bodies@) == c.bodies);
    assert(ov(error) == c.error);
    let ghost bv = seqs_view(bodies@);
    let mut endpoints: Vec<String> = Vec::new();
    let mut secrets: Vec<Secret> = Vec::new();
    let mut k: usize = 0;
    assert(strs_view(endpoints@) =~= merged_endpoints(bv.take(0)));
    assert(secrets_view(secrets@) =~= merged_secrets(bv.take(0)));
    while k < bodies.len()
        invariant
            k <= bodies@.len(),
            bv == seqs_view(bodies@),
            strs_view(endpoints@) == merged_endpoints(bv.take(k as int)),
            secrets_view(secrets@) == merged_secrets(bv.take(k as int)),
        decreases bodies@.len() - k,
    {
        assert(bv.take(k + 1).drop_last() =~= bv.take(k as int));
        assert(bv.take(k + 1).last() == bodies@[k as int]@);
        let text = string_of(bodies[k].as_slice());
        append_new_strings(&mut endpoints, scan_endpoints(text.as_str()));
        append_new_secrets(&mut secrets, scan_secrets(text.as_str()));
        k = k + 1;
    }
    assert(bv.take(bodies@.len() as int) =~= bv);
    let ghost eps = strs_view(endpoints@);
    let mut api: usize = 0;
    let mut j: usize = 0;
    while j < endpoints.len()
        invariant
            j <= endpoints@.len(),
            eps == strs_view(endpoints@),
            api == api_count(eps.take(j as int)),
            api <= j,
        decreases endpoints@.len() - j,
    {
        assert(eps.take(j + 1).drop_last() =~= eps.take(j as int));
        if is_api_exec(endpoints[j].as_str()) {
            api = api + 1;
        }
        j = j + 1;
    }
    assert(eps.take(endpoints@.len() as int) =~= eps);
    if endpoints.len() > MAX_ENDPOINTS {
        endpoints.truncate(MAX_ENDPOINTS);
        assert(strs_view(endpoints@) =~= cap(eps, MAX_ENDPOINTS as nat));
    }
    let ghost secs = secrets_view(secrets@);
    if secrets.len() > MAX_SECRETS {
        secrets.truncate(MAX_SECRETS);
        assert(secrets_view(secrets@) =~= cap(secs, MAX_SECRETS as nat));
    }
    let joined = string_of(crate::text::join_chars(&bodies, "\n\n").as_slice());
    let counts = Counts {
        scripts: scripts.len(),
        endpoints: endpoints.len(),
        api_endpoints: api,
        secrets: secrets.len(),
    };
    JsAnalysisResponse {
        url: lit(target),
        installed: true,
        scripts,
        endpoints,
        secrets,
        counts,
        raw: truncate_output(joined.as_str(), MAX_RAW_CHARS),
        error,
        duration_ms,
        command: lit("builtin (native HTTP + regex)"),
    }
}

/// The secret rules, each a label and the pattern it searches for, are
/// exactly these twelve, in this order (the Slack rule covers the `xoxb-`,
/// `xoxa-`, `xoxp-`, `xoxr-` and `xoxs-` tokens).
pub proof fn secret_rules_table()
    ensures
        secret_label(0) == "AWS access key"@ && secret_pattern(0) == r"\b(AKIA[0-9A-Z]{16})\b"@,
        secret_label(1) == "AWS secret"@ && secret_pattern(1)
            == r#"(?i)\b(aws_secret_access_key)\s*[:=]\s*['"]?([A-Za-z0-9/+=]{16,40})"#@,
        secret_label(2) == "Google API key"@ && secret_pattern(2) == r"\b(AIza[0-9A-Za-z_\-]{30,})\b"@,
        secret_label(3) == "OpenAI key"@ && secret_pattern(3) == r"\b(sk-[A-Za-z0-9_\-]{20,})\b"@,
        secret_label(4) == "GitHub token"@ && secret_pattern(4)
            == r"\b(ghp_[A-Za-z0-9]{30,}|github_pat_[A-Za-z0-9_]{20,}|gho_[A-Za-z0-9]{30,})\b"@,
        secret_label(5) == "Slack token"@ && secret_pattern(5) == r"\b(xox[baprs]-[A-Za-z0-9\-]{10,})\b"@,
        secret_label(6) == "JWT"@ && secret_pattern(6)
            == r"\b(eyJ[A-Za-z0-9_\-]{8,}\.[A-Za-z0-9_\-]{8,}\.[A-Za-z0-9_\-]{8,})\b"@,
        secret_label(7) == "Private key"@ && secret_pattern(7) == r"(-----BEGIN [A-Z ]*PRIVATE KEY-----)"@,
        secret_label(8) == "MongoDB URI"@ && secret_pattern(8) == r#"\b(mongodb(?:\+srv)?://[^\s"'<>\\]+)"#@,
        secret_label(9) == "S3 bucket"@ && secret_pattern(9) == r"\b(s3://[a-z0-9.\-]+)\b"@,
        secret_label(10) == "Generic secret"@ && secret_pattern(10)
            == r#"(?i)\b(api[_-]?key|client[_-]?secret|access[_-]?token|auth[_-]?token|refresh[_-]?token|secret)\b['"]?\s*[:=]\s*['"]([^'"]{6,80})['"]"#@,
        secret_label(11) == "Password"@ && secret_pattern(11)
            == r#"(?i)\b(password|passwd|pwd)\b['"]?\s*[:=]\s*['"]([^'"]{6,80})['"]"#@,
{
}

} // verus!
