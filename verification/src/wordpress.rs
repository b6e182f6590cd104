//! WordPress version check: reads the generator meta tag, the REST root's
//! version, the XML-RPC endpoint and the readme to tell whether a site runs
//! WordPress and which version. The requests are made by the caller; this
//! module decides from their outcomes.

use vstd::prelude::*;

use crate::text::ov;

use crate::common::{safe_prefix, spec_safe_prefix};
use crate::text::{
    chars_of, decimal, decimal_chars, find_chars, first_match, lit, push_all, push_str,
    slice_chars, str_contains, string_of, contains,
};

verus! {

pub struct WpCheckResponse {
    pub url: String,
    pub version: Option<String>,
    pub version_source: Option<String>,
    pub detected: bool,
    pub generator_tag: Option<String>,
    pub rest_api_available: bool,
    pub xmlrpc_available: bool,
    pub readme_accessible: bool,
    pub wp_json_version: Option<String>,
    /// Response headers worth showing, in the order they were recorded.
    pub headers: Vec<(String, String)>,
    pub error: Option<String>,
}

pub open spec fn generator_marker() -> Seq<char> {
    "<meta name=\"generator\""@
}

pub open spec fn content_marker() -> Seq<char> {
    "content=\"WordPress "@
}

/// The generator tag (200 chars from the meta tag) and the WordPress
/// version it names, when the page has one.
pub open spec fn generator_of(body: Seq<char>) -> Option<(Seq<char>, Option<Seq<char>>)> {
    match first_match(body, generator_marker(), 0) {
        None => None,
        Some(start) => {
            let snippet = spec_safe_prefix(body.skip(start), 200);
            let version = match first_match(snippet, content_marker(), 0) {
                Some(v) => {
                    let part = snippet.skip(v + 19);
                    match first_match(part, "\""@, 0) {
                        Some(e) => Some(part.take(e)),
                        None => None,
                    }
                },
                None => None,
            };
            Some((snippet, version))
        },
    }
}

pub open spec fn is_version_char(c: char) -> bool {
    ('0' <= c && c <= '9') || c == '.'
}

/// Number of leading digits and dots.
pub open spec fn version_prefix_len(s: Seq<char>) -> nat
    decreases s.len(),
{
    if s.len() > 0 && is_version_char(s[0]) {
        1 + version_prefix_len(s.drop_first())
    } else {
        0
    }
}

/// Version read from a readme: the digits and dots right after "Version "
/// (within 12 chars).
pub open spec fn readme_version_of(body: Seq<char>) -> Option<Seq<char>> {
    match first_match(body, "Version "@, 0) {
        Some(s) => {
            let part = spec_safe_prefix(body.skip(s + 8), 12);
            let v = part.take(version_prefix_len(part) as int);
            if v.len() > 0 {
                Some(v)
            } else {
                None
            }
        },
        None => None,
    }
}

pub fn generator_info(body: &str) -> (r: Option<(String, Option<String>)>)
    ensures
        match r {
            Some((tag, ver)) => generator_of(body@) == Some((tag@, ov(ver))),
            None => generator_of(body@) is None,
        },
{
    let b = chars_of(body);
    let marker = chars_of("<meta name=\"generator\"");
    proof {
        crate::text::lemma_first_match(b@, marker@, 0);
    }
    match find_chars(b.as_slice(), marker.as_slice(), 0) {
        None => None,
        Some(start) => {
            let rest = slice_chars(b.as_slice(), start, b.len());
            assert(rest@ =~= b@.skip(start as int));
            let rest_s = string_of(rest.as_slice());
            let snippet = lit(safe_prefix(rest_s.as_str(), 200));
            let sc = chars_of(snippet.as_str());
            let content = chars_of("content=\"WordPress ");
            proof {
                crate::text::lemma_first_match(sc@, content@, 0);
            }
            let version = match find_chars(sc.as_slice(), content.as_slice(), 0) {
                Some(v) => {
                    if v + 19 <= sc.len() {
                        let part = slice_chars(sc.as_slice(), v + 19, sc.len());
                        assert(part@ =~= sc@.skip(v + 19));
                        let quote = chars_of("\"");
                        proof {
                            crate::text::lemma_first_match(part@, quote@, 0);
                        }
                        match find_chars(part.as_slice(), quote.as_slice(), 0) {
                            Some(e) => {
                                let ver = slice_chars(part.as_slice(), 0, e);
                                assert(ver@ =~= part@.take(e as int));
                                Some(string_of(ver.as_slice()))
                            },
                            None => None,
                        }
                    } else {
                        proof {
                            reveal_strlit("content=\"WordPress ");
                        }
                        None
                    }
                },
                None => None,
            };
            Some((snippet, version))
        },
    }
}

pub fn readme_version(body: &str) -> (r: Option<String>)
    ensures
        ov(r) == readme_version_of(body@),
{
    let b = chars_of(body);
    let marker = chars_of("Version ");
    proof {
        crate::text::lemma_first_match(b@, marker@, 0);
        reveal_strlit("Version ");
    }
    match find_chars(b.as_slice(), marker.as_slice(), 0) {
        None => None,
        Some(s) => {
            assert(marker@.len() == 8);
            assert(crate::text::match_at(b@, marker@, s as int));
            let n = b.len();
            assert(s + 8 <= n);
            let rest = slice_chars(b.as_slice(), s + 8, n);
            assert(rest@ =~= b@.skip(s + 8));
            let part = chars_of(safe_prefix(string_of(rest.as_slice()).as_str(), 12));
            let mut k: usize = 0;
            assert(part@.skip(0) =~= part@);
            while k < part.len() && (('0' <= part[k] && part[k] <= '9') || part[k] == '.')
                invariant
                    k <= part@.len(),
                    version_prefix_len(part@) == k + version_prefix_len(part@.skip(k as int)),
                decreases part@.len() - k,
            {
                assert(part@.skip(k as int)[0] == part@[k as int]);
                assert(part@.skip(k as int).drop_first() =~= part@.skip(k + 1));
                k = k + 1;
            }
            proof {
                if k < part@.len() {
                    assert(part@.skip(k as int)[0] == part@[k as int]);
                }
            }
            if k == 0 {
                None
            } else {
                let v = slice_chars(part.as_slice(), 0, k);
                assert(v@ =~= part@.take(k as int));
                Some(string_of(v.as_slice()))
            }
        },
    }
}

/// The main page's response: status, `server` / `x-powered-by` headers
/// (when readable) and body (when it could be read).
pub struct MainPage {
    pub status: u16,
    pub server: Option<String>,
    pub powered_by: Option<String>,
    pub body: Option<String>,
}

pub open spec fn headers_view(h: Seq<(String, String)>) -> Seq<(Seq<char>, Seq<char>)> {
    h.map_values(|e: (String, String)| (e.0@, e.1@))
}

pub open spec fn main_headers(m: MainPage) -> Seq<(Seq<char>, Seq<char>)> {
    seq![("status_code"@, decimal(m.status as nat))] + (match m.server {
        Some(s) => seq![("server"@, s@)],
        None => seq![],
    }) + (match m.powered_by {
        Some(p) => seq![("x-powered-by"@, p@)],
        None => seq![],
    })
}

/// Version and its source after the main page (generator tag), the REST
/// root (`wp_json`: `Some(version field)` when it answered 2xx) and the
/// readme (`readme`: `Some(body)` when it answered 2xx).
pub open spec fn version_found(
    main: Result<MainPage, String>,
    wp_json: Option<Option<String>>,
    readme: Option<Option<String>>,
) -> Option<(Seq<char>, Seq<char>)> {
    let from_gen = match main {
        Ok(m) => match m.body {
            Some(b) => match generator_of(b@) {
                Some((_, Some(v))) => Some((v, "generator_meta_tag"@)),
                _ => None,
            },
            None => None,
        },
        Err(_) => None,
    };
    let from_json = match from_gen {
        Some(x) => Some(x),
        None => match wp_json {
            Some(Some(v)) => Some((v@, "wp_json"@)),
            _ => None,
        },
    };
    match from_json {
        Some(x) => Some(x),
        None => match readme {
            Some(Some(b)) => match readme_version_of(b@) {
                Some(v) => Some((v, "readme_html"@)),
                None => None,
            },
            _ => None,
        },
    }
}

fn push_header(h: &mut Vec<(String, String)>, k: &str, v: String)
    ensures
        headers_view(final(h)@) == headers_view(old(h)@).push((k@, v@)),
{
    let ghost prev = headers_view(h@);
    h.push((lit(k), v));
    assert(headers_view(h@) =~= prev.push((k@, v@)));
}

/// Builds the version-check answer for `base` from the probes' outcomes.
pub fn wp_check_report(
    base: &str,
    main: Result<MainPage, String>,
    wp_json: Option<Option<String>>,
    xmlrpc_status: Option<u16>,
    readme: Option<Option<String>>,
) -> (r: WpCheckResponse)
    ensures
        r.url@ == base@,
        headers_view(r.headers@) == match main {
            Ok(m) => main_headers(m),
            Err(_) => seq![],
        },
        ov(r.error) == match main {
            Ok(_) => None,
            Err(e) => Some("Failed to fetch main page: "@ + e@),
        },
        ov(r.generator_tag) == match main {
            Ok(m) => match m.body {
                Some(b) => match generator_of(b@) {
                    Some((tag, _)) => Some(tag),
                    None => None,
                },
                None => None,
            },
            Err(_) => None,
        },
        r.rest_api_available == ((match main {
            Ok(m) => match m.body {
                Some(b) => contains(b@, "wp-json"@),
                None => false,
            },
            Err(_) => false,
        }) || wp_json is Some),
        ov(r.wp_json_version) == match wp_json {
            Some(Some(v)) => Some(v@),
            _ => None,
        },
        r.xmlrpc_available == match xmlrpc_status {
            Some(s) => (200 <= s <= 299) || s == 405,
            None => false,
        },
        r.readme_accessible == (readme is Some),
        match version_found(main, wp_json, readme) {
            Some((v, src)) => ov(r.version) == Some(v) && ov(r.version_source) == Some(src),
            None => r.version is None && r.version_source is None,
        },
        r.detected == (r.generator_tag is Some || r.version is Some),
{
    let mut headers: Vec<(String, String)> = Vec::new();
    let mut version: Option<String> = None;
    let mut version_source: Option<String> = None;
    let mut generator_tag: Option<String> = None;
    let mut detected = false;
    let mut rest = false;
    let mut error: Option<String> = None;
    assert(headers_view(headers@) =~= Seq::<(Seq<char>, Seq<char>)>::empty());
    match main {
        Ok(m) => {
            push_header(&mut headers, "status_code", string_of(decimal_chars(m.status as u64).as_slice()));
            let ghost h1 = headers_view(headers@);
            if let Some(s) = m.server {
                push_header(&mut headers, "server", s);
            }
            let ghost h2 = headers_view(headers@);
            if let Some(p) = m.powered_by {
                push_header(&mut headers, "x-powered-by", p);
            }
            assert(headers_view(headers@) =~= main_headers(m));
            if let Some(b) = &m.body {
                if let Some((tag, ver)) = generator_info(b.as_str()) {
                    generator_tag = Some(tag);
                    detected = true;
                    if let Some(v) = ver {
                        version = Some(v);
                        version_source = Some(lit("generator_meta_tag"));
                    }
                }
                if str_contains(b.as_str(), "/wp-json/") || str_contains(b.as_str(), "wp-json") {
                    rest = true;
                }
                proof {
                    if crate::text::contains(b@, "/wp-json/"@) {
                        reveal_strlit("/wp-json/");
                        reveal_strlit("wp-json");
                        let i = choose|i: int| crate::text::match_at(b@, "/wp-json/"@, i);
                        assert("/wp-json/"@.subrange(1, 8) =~= "wp-json"@);
                        assert(b@.subrange(i + 1, i + 8) =~= b@.subrange(i, i + 9).subrange(1, 8));
                        assert(crate::text::match_at(b@, "wp-json"@, i + 1));
                    }
                }
            }
        },
        Err(e) => {
            let mut msg = chars_of("Failed to fetch main page: ");
            push_all(&mut msg, chars_of(e.as_str()).as_slice());
            error = Some(string_of(msg.as_slice()));
        },
    }
    let mut wp_json_version: Option<String> = None;
    if let Some(j) = wp_json {
        rest = true;
        if let Some(v) = j {
            wp_json_version = Some(v.clone());
            if version.is_none() {
                version = Some(v);
                version_source = Some(lit("wp_json"));
            }
        }
    }
    let xmlrpc_available = match xmlrpc_status {
        Some(s) => (200 <= s && s <= 299) || s == 405,
        None => false,
    };
    let readme_accessible = readme.is_some();
    if let Some(rb) = readme {
        if version.is_none() {
            if let Some(b) = rb {
                if let Some(v) = readme_version(b.as_str()) {
                    version = Some(v);
                    version_source = Some(lit("readme_html"));
                }
            }
        }
    }
    if version.is_some() {
        detected = true;
    }
    WpCheckResponse {
        url: lit(base),
        version,
        version_source,
        detected,
        generator_tag,
        rest_api_available: rest,
        xmlrpc_available,
        readme_accessible,
        wp_json_version,
        headers,
        error,
    }
}

} // verus!
