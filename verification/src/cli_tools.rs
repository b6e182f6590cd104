//! The command-line recon tools: the argument vector each one is run with
//! (built from the request's parameters, validated first) and how its
//! finished run is read back into the tool's answer.

use vstd::prelude::*;

use crate::text::{all_ascii_digits, digits_only};

use crate::text::ov;
use crate::cli::{result_v, CliResult};
use crate::common::{
    normalize_domain, normalize_url, res_view, spec_normalize_domain, spec_normalize_url,
    spec_truncate_output, truncate_output,
};
use crate::jobs::{param_get, param_value};
use crate::js_analysis::append_new;
use crate::text::{
    chars_of, contains, lit, lowercase, push_str, seqs_view, sort_seqs, sort_strings, starts_with,
    str_contains, str_eq, str_to_lowercase, string_of, strs_view, trim, trim_chars, trim_str,
};
use crate::wp_html::{lines_of, lines_spec};

verus! {

// ─── JSON texts ─────────────────────────────────────────────────────────────

/// Whether `serde_json::from_str` parses the text as JSON.
pub uninterp spec fn json_parses(s: Seq<char>) -> bool;

/// `serde_json::from_str::<Value>(s).is_ok()`: whether the text is JSON.
#[verifier::external_body]
fn json_valid(s: &str) -> (b: bool)
    ensures
        b == json_parses(s@),
{
    serde_json::from_str::<serde_json::Value>(s).is_ok()
}

// ─── Parameters ─────────────────────────────────────────────────────────────

/// A parameter whose empty value counts as absent, else the default.
pub open spec fn param_or_spec(p: Seq<(String, String)>, key: Seq<char>, default: Seq<char>) -> Seq<char> {
    match param_get(p, key) {
        Some(v) => if v.len() > 0 {
            v
        } else {
            default
        },
        None => default,
    }
}

pub fn param_or(p: &Vec<(String, String)>, key: &str, default: &str) -> (r: String)
    ensures
        r@ == param_or_spec(p@, key@, default@),
{
    match param_value(p, key) {
        Some(v) => if chars_of(v.as_str()).len() > 0 {
            v
        } else {
            lit(default)
        },
        None => lit(default),
    }
}

/// The `url` parameter, normalized.
pub open spec fn url_param_spec(p: Seq<(String, String)>) -> Result<Seq<char>, Seq<char>> {
    match param_get(p, "url"@) {
        Some(u) => spec_normalize_url(u),
        None => Err("Missing 'url' parameter"@),
    }
}

pub fn url_param(p: &Vec<(String, String)>) -> (r: Result<String, String>)
    ensures
        res_view(r) == url_param_spec(p@),
{
    match param_value(p, "url") {
        Some(u) => normalize_url(u.as_str()),
        None => Err(lit("Missing 'url' parameter")),
    }
}

/// The `domain` parameter (or else `url`), normalized to a bare domain.
pub open spec fn domain_param_spec(p: Seq<(String, String)>) -> Result<Seq<char>, Seq<char>> {
    match param_get(p, "domain"@) {
        Some(d) => spec_normalize_domain(d),
        None => match param_get(p, "url"@) {
            Some(u) => spec_normalize_domain(u),
            None => Err("Missing 'domain' parameter"@),
        },
    }
}

pub fn domain_param(p: &Vec<(String, String)>) -> (r: Result<String, String>)
    ensures
        res_view(r) == domain_param_spec(p@),
{
    match param_value(p, "domain") {
        Some(d) => normalize_domain(d.as_str()),
        None => match param_value(p, "url") {
            Some(u) => normalize_domain(u.as_str()),
            None => Err(lit("Missing 'domain' parameter")),
        },
    }
}

/// Comma-separated tags: ASCII letters, digits, `,`, `-` and `_` only.
pub open spec fn tags_ok(t: Seq<char>) -> bool {
    forall|i: int|
        0 <= i < t.len() ==> {
            let c = #[trigger] t[i];
            ('a' <= c && c <= 'z') || ('A' <= c && c <= 'Z') || ('0' <= c && c <= '9') || c == ','
                || c == '-' || c == '_'
        }
}

pub fn tags_valid(t: &str) -> (b: bool)
    ensures
        b == tags_ok(t@),
{
    let v = chars_of(t);
    let mut i: usize = 0;
    while i < v.len()
        invariant
            i <= v@.len(),
            v@ == t@,
            forall|j: int|
                0 <= j < i ==> {
                    let c = #[trigger] v@[j];
                    ('a' <= c && c <= 'z') || ('A' <= c && c <= 'Z') || ('0' <= c && c <= '9') || c
                        == ',' || c == '-' || c == '_'
                },
        decreases v@.len() - i,
    {
        let c = v[i];
        if !(('a' <= c && c <= 'z') || ('A' <= c && c <= 'Z') || ('0' <= c && c <= '9') || c == ','
            || c == '-' || c == '_') {
            return false;
        }
        i = i + 1;
    }
    true
}

fn push_arg(args: &mut Vec<String>, a: &str)
    ensures
        strs_view(final(args)@) == strs_view(old(args)@).push(a@),
{
    let ghost prev = strs_view(args@);
    args.push(lit(a));
    assert(strs_view(args@) =~= prev.push(a@));
}

fn push_owned(args: &mut Vec<String>, a: String)
    ensures
        strs_view(final(args)@) == strs_view(old(args)@).push(a@),
{
    let ghost prev = strs_view(args@);
    let ghost av = a@;
    args.push(a);
    assert(strs_view(args@) =~= prev.push(av));
}

// ─── Line listings (subdomains, crawled and archived URLs) ──────────────────

/// The non-blank lines of a text, trimmed.
pub open spec fn clean_lines(ls: Seq<Seq<char>>) -> Seq<Seq<char>>
    decreases ls.len(),
{
    if ls.len() == 0 {
        seq![]
    } else {
        let p = clean_lines(ls.drop_last());
        let t = trim(ls.last());
        if t.len() == 0 {
            p
        } else {
            p.push(t)
        }
    }
}

/// The distinct trimmed lines of a tool's output, sorted.
pub open spec fn unique_sorted_lines(stdout: Seq<char>) -> Seq<Seq<char>> {
    sort_seqs(append_new(seq![], clean_lines(lines_spec(stdout))))
}

fn strings_contain(v: &Vec<String>, x: &str) -> (r: bool)
    ensures
        r == strs_view(v@).contains(x@),
{
    let ghost sv = strs_view(v@);
    let mut i: usize = 0;
    while i < v.len()
        invariant
            i <= v@.len(),
            sv == strs_view(v@),
            forall|j: int| 0 <= j < i ==> sv[j] != x@,
        decreases v@.len() - i,
    {
        if str_eq(v[i].as_str(), x) {
            assert(sv[i as int] == x@);
            return true;
        }
        i = i + 1;
    }
    false
}

pub fn unique_lines(stdout: &str) -> (r: Vec<String>)
    ensures
        strs_view(r@) == unique_sorted_lines(stdout@),
{
    let ls = lines_of(stdout);
    let ghost lv = seqs_view(ls@);
    let mut out: Vec<String> = Vec::new();
    let mut i: usize = 0;
    while i < ls.len()
        invariant
            i <= ls@.len(),
            lv == seqs_view(ls@),
            strs_view(out@) == append_new(seq![], clean_lines(lv.take(i as int))),
        decreases ls@.len() - i,
    {
        assert(lv.take(i + 1).drop_last() =~= lv.take(i as int));
        assert(lv.take(i + 1).last() == ls@[i as int]@);
        let t = string_of(trim_chars(ls[i].as_slice()).as_slice());
        let ghost cl = clean_lines(lv.take(i + 1));
        if chars_of(t.as_str()).len() > 0 {
            assert(cl.drop_last() =~= clean_lines(lv.take(i as int)));
            assert(cl.last() == t@);
            if !strings_contain(&out, t.as_str()) {
                let ghost prev = strs_view(out@);
                let ghost tv = t@;
                out.push(t);
                assert(strs_view(out@) =~= prev.push(tv));
            }
        } else {
            assert(cl =~= clean_lines(lv.take(i as int)));
        }
        i = i + 1;
    }
    assert(lv.take(ls@.len() as int) =~= lv);
    sort_strings(out)
}

/// A listing as answered: the kept items (at most `max`), how many there
/// were, the raw output shortened, and the error shown when there were none.
pub open spec fn listing_spec(
    stdout: Seq<char>,
    error: Option<Seq<char>>,
    max: nat,
    raw_max: nat,
    empty_msg: Seq<char>,
) -> (Seq<Seq<char>>, nat, Seq<char>, Option<Seq<char>>) {
    let all = unique_sorted_lines(stdout);
    (
        if all.len() > max {
            all.take(max as int)
        } else {
            all
        },
        all.len(),
        spec_truncate_output(stdout, raw_max),
        if all.len() == 0 {
            Some(
                match error {
                    Some(e) => e,
                    None => empty_msg,
                },
            )
        } else {
            None
        },
    )
}

fn listing(result: &CliResult, max: usize, raw_max: usize, empty_msg: &str) -> (r: (
    Vec<String>,
    usize,
    String,
    Option<String>,
))
    ensures
        (strs_view(r.0@), r.1 as nat, r.2@, ov(r.3)) == listing_spec(
            result.stdout@,
            ov(result.error),
            max as nat,
            raw_max as nat,
            empty_msg@,
        ),
{
    let mut items = unique_lines(result.stdout.as_str());
    let count = items.len();
    let ghost all = strs_view(items@);
    if items.len() > max {
        items.truncate(max);
        assert(strs_view(items@) =~= all.take(max as int));
    }
    let err = if count == 0 {
        Some(
            match &result.error {
                Some(e) => e.clone(),
                None => lit(empty_msg),
            },
        )
    } else {
        None
    };
    (items, count, truncate_output(result.stdout.as_str(), raw_max), err)
}

// ─── subfinder ──────────────────────────────────────────────────────────────

pub struct SubfinderResponse {
    pub domain: String,
    pub installed: bool,
    pub subdomains: Vec<String>,
    pub count: usize,
    pub raw: String,
    pub error: Option<String>,
    pub duration_ms: u64,
    pub command: String,
}

pub open spec fn subfinder_args_spec(domain: Seq<char>, all: bool) -> Seq<Seq<char>> {
    let base = seq!["-d"@, domain, "-silent"@, "-timeout"@, "10"@, "-max-time"@, "1"@];
    if all {
        base.push("-all"@)
    } else {
        base
    }
}

/// subfinder's arguments: the domain, quiet, bounded per source and
/// overall; every source with `all=1`.
pub fn subfinder_build_args(p: &Vec<(String, String)>) -> (r: Result<Vec<String>, String>)
    ensures
        match r {
            Ok(a) => domain_param_spec(p@) matches Ok(d) && strs_view(a@) == subfinder_args_spec(
                d,
                param_get(p@, "all"@) == Some("1"@),
            ),
            Err(e) => domain_param_spec(p@) == Err::<Seq<char>, Seq<char>>(e@),
        },
{
    let domain = match domain_param(p) {
        Ok(d) => d,
        Err(e) => return Err(e),
    };
    let all = match param_value(p, "all") {
        Some(v) => str_eq(v.as_str(), "1"),
        None => false,
    };
    let mut args: Vec<String> = Vec::new();
    push_arg(&mut args, "-d");
    push_owned(&mut args, domain);
    push_arg(&mut args, "-silent");
    push_arg(&mut args, "-timeout");
    push_arg(&mut args, "10");
    push_arg(&mut args, "-max-time");
    push_arg(&mut args, "1");
    if all {
        push_arg(&mut args, "-all");
    }
    Ok(args)
}

/// Reads a subfinder run: its distinct subdomains, sorted.
pub fn subfinder_parse_output(p: &Vec<(String, String)>, result: &CliResult) -> (r: Result<
    SubfinderResponse,
    String,
>)
    ensures
        match r {
            Err(e) => domain_param_spec(p@) == Err::<Seq<char>, Seq<char>>(e@),
            Ok(s) => domain_param_spec(p@) == Ok::<Seq<char>, Seq<char>>(s.domain@)
                && s.installed == result.installed && s.duration_ms == result.duration_ms
                && s.command@ == result.command@ && if !result.installed {
                strs_view(s.subdomains@).len() == 0 && s.count == 0 && s.raw@.len() == 0 && ov(
                    s.error,
                ) == ov(result.error)
            } else {
                (strs_view(s.subdomains@), s.count as nat, s.raw@, ov(s.error)) == listing_spec(
                    result.stdout@,
                    ov(result.error),
                    usize::MAX as nat,
                    30000,
                    "No subdomains found. Add provider API keys to subfinder config for more sources."@,
                )
            },
        },
{
    let d = match domain_param(p) {
        Ok(d) => d,
        Err(e) => return Err(e),
    };
    if !result.installed {
        proof {
            reveal_strlit("");
        }
        return Ok(
            SubfinderResponse {
                domain: d,
                installed: false,
                subdomains: Vec::new(),
                count: 0,
                raw: lit(""),
                error: match &result.error {
                    Some(e) => Some(e.clone()),
                    None => None,
                },
                duration_ms: result.duration_ms,
                command: result.command.clone(),
            },
        );
    }
    let (items, count, raw, err) = listing(
        result,
        usize::MAX,
        30000,
        "No subdomains found. Add provider API keys to subfinder config for more sources.",
    );
    Ok(
        SubfinderResponse {
            domain: d,
            installed: true,
            subdomains: items,
            count,
            raw,
            error: err,
            duration_ms: result.duration_ms,
            command: result.command.clone(),
        },
    )
}

// ─── katana ─────────────────────────────────────────────────────────────────

/// URLs kept from a crawl.
pub const KATANA_MAX_URLS: usize = 3000;

pub struct KatanaResponse {
    pub url: String,
    pub installed: bool,
    pub urls: Vec<String>,
    pub count: usize,
    pub raw: String,
    pub error: Option<String>,
    pub duration_ms: u64,
    pub command: String,
}

/// The crawl depth: the `depth` parameter trimmed when it is a non-empty
/// run of digits, else (absent, blank or not a number) 2.
pub open spec fn katana_depth_spec(p: Seq<(String, String)>) -> Seq<char> {
    match param_get(p, "depth"@) {
        Some(d) => if trim(d).len() > 0 && all_ascii_digits(trim(d)) {
            trim(d)
        } else {
            "2"@
        },
        None => "2"@,
    }
}

pub open spec fn katana_args_spec(target: Seq<char>, depth: Seq<char>) -> Seq<Seq<char>> {
    seq![
        "-u"@,
        target,
        "-d"@,
        depth,
        "-jc"@,
        "-kf"@,
        "all"@,
        "-silent"@,
        "-timeout"@,
        "10"@,
        "-c"@,
        "15"@,
    ]
}

pub fn katana_build_args(p: &Vec<(String, String)>) -> (r: Result<Vec<String>, String>)
    ensures
        match r {
            Ok(a) => url_param_spec(p@) matches Ok(t) && strs_view(a@) == katana_args_spec(
                t,
                katana_depth_spec(p@),
            ),
            Err(e) => url_param_spec(p@) == Err::<Seq<char>, Seq<char>>(e@),
        },
{
    let target = match url_param(p) {
        Ok(t) => t,
        Err(e) => return Err(e),
    };
    let depth = match param_value(p, "depth") {
        Some(d) => {
            let t = trim_chars(chars_of(d.as_str()).as_slice());
            if t.len() > 0 && digits_only(t.as_slice()) {
                string_of(t.as_slice())
            } else {
                lit("2")
            }
        },
        None => lit("2"),
    };
    let mut args: Vec<String> = Vec::new();
    push_arg(&mut args, "-u");
    push_owned(&mut args, target);
    push_arg(&mut args, "-d");
    push_owned(&mut args, depth);
    push_arg(&mut args, "-jc");
    push_arg(&mut args, "-kf");
    push_arg(&mut args, "all");
    push_arg(&mut args, "-silent");
    push_arg(&mut args, "-timeout");
    push_arg(&mut args, "10");
    push_arg(&mut args, "-c");
    push_arg(&mut args, "15");
    Ok(args)
}

/// Reads a katana run: its distinct URLs, sorted, at most 3000 kept.
pub fn katana_parse_output(p: &Vec<(String, String)>, result: &CliResult) -> (r: Result<
    KatanaResponse,
    String,
>)
    ensures
        match r {
            Err(e) => url_param_spec(p@) == Err::<Seq<char>, Seq<char>>(e@),
            Ok(s) => url_param_spec(p@) == Ok::<Seq<char>, Seq<char>>(s.url@) && s.installed
                == result.installed && s.duration_ms == result.duration_ms && s.command@
                == result.command@ && if !result.installed {
                strs_view(s.urls@).len() == 0 && s.count == 0 && s.raw@.len() == 0 && ov(s.error)
                    == ov(result.error)
            } else {
                (strs_view(s.urls@), s.count as nat, s.raw@, ov(s.error)) == listing_spec(
                    result.stdout@,
                    ov(result.error),
                    KATANA_MAX_URLS as nat,
                    40000,
                    "No URLs discovered. Site may be unreachable or a JS-heavy SPA (try the JS Analysis tool)."@,
                )
            },
        },
{
    let target = match url_param(p) {
        Ok(t) => t,
        Err(e) => return Err(e),
    };
    if !result.installed {
        proof {
            reveal_strlit("");
        }
        return Ok(
            KatanaResponse {
                url: target,
                installed: false,
                urls: Vec::new(),
                count: 0,
                raw: lit(""),
                error: match &result.error {
                    Some(e) => Some(e.clone()),
                    None => None,
                },
                duration_ms: result.duration_ms,
                command: result.command.clone(),
            },
        );
    }
    let (items, count, raw, err) = listing(
        result,
        KATANA_MAX_URLS,
        40000,
        "No URLs discovered. Site may be unreachable or a JS-heavy SPA (try the JS Analysis tool).",
    );
    Ok(
        KatanaResponse {
            url: target,
            installed: true,
            urls: items,
            count,
            raw,
            error: err,
            duration_ms: result.duration_ms,
            command: result.command.clone(),
        },
    )
}

// ─── waybackurls ────────────────────────────────────────────────────────────

/// URLs kept from the archive.
pub const WAYBACK_MAX_URLS: usize = 4000;

pub struct WaybackResponse {
    pub domain: String,
    pub installed: bool,
    pub urls: Vec<String>,
    pub count: usize,
    pub raw: String,
    pub error: Option<String>,
    pub duration_ms: u64,
    pub command: String,
}

/// waybackurls takes the domain alone.
pub fn wayback_build_args(p: &Vec<(String, String)>) -> (r: Result<Vec<String>, String>)
    ensures
        match r {
            Ok(a) => domain_param_spec(p@) matches Ok(d) && strs_view(a@) == seq![d],
            Err(e) => domain_param_spec(p@) == Err::<Seq<char>, Seq<char>>(e@),
        },
{
    let d = match domain_param(p) {
        Ok(d) => d,
        Err(e) => return Err(e),
    };
    let mut args: Vec<String> = Vec::new();
    push_owned(&mut args, d);
    Ok(args)
}

/// Reads a waybackurls run: its distinct URLs, sorted, at most 4000 kept.
pub fn wayback_parse_output(p: &Vec<(String, String)>, result: &CliResult) -> (r: Result<
    WaybackResponse,
    String,
>)
    ensures
        match r {
            Err(e) => domain_param_spec(p@) == Err::<Seq<char>, Seq<char>>(e@),
            Ok(s) => domain_param_spec(p@) == Ok::<Seq<char>, Seq<char>>(s.domain@)
                && s.installed == result.installed && s.duration_ms == result.duration_ms
                && s.command@ == result.command@ && if !result.installed {
                strs_view(s.urls@).len() == 0 && s.count == 0 && s.raw@.len() == 0 && ov(s.error)
                    == ov(result.error)
            } else {
                (strs_view(s.urls@), s.count as nat, s.raw@, ov(s.error)) == listing_spec(
                    result.stdout@,
                    ov(result.error),
                    WAYBACK_MAX_URLS as nat,
                    40000,
                    "No archived URLs for this domain (or it was never archived)."@,
                )
            },
        },
{
    let d = match domain_param(p) {
        Ok(d) => d,
        Err(e) => return Err(e),
    };
    if !result.installed {
        proof {
            reveal_strlit("");
        }
        return Ok(
            WaybackResponse {
                domain: d,
                installed: false,
                urls: Vec::new(),
                count: 0,
                raw: lit(""),
                error: match &result.error {
                    Some(e) => Some(e.clone()),
                    None => None,
                },
                duration_ms: result.duration_ms,
                command: result.command.clone(),
            },
        );
    }
    let (items, count, raw, err) = listing(
        result,
        WAYBACK_MAX_URLS,
        40000,
        "No archived URLs for this domain (or it was never archived).",
    );
    Ok(
        WaybackResponse {
            domain: d,
            installed: true,
            urls: items,
            count,
            raw,
            error: err,
            duration_ms: result.duration_ms,
            command: result.command.clone(),
        },
    )
}

// ─── JSON outputs ───────────────────────────────────────────────────────────

/// The `results` items of an ffuf report, each as compact JSON text; none
/// when the text is not JSON or has no `results` array.
pub uninterp spec fn json_results_of(s: Seq<char>) -> Seq<Seq<char>>;

/// `serde_json::from_str::<Value>`, then `Value::get("results")` and
/// `Value::as_array`, each item written back with `Value::to_string`.
#[verifier::external_body]
fn json_results(s: &str) -> (r: Vec<String>)
    ensures
        strs_view(r@) == json_results_of(s@),
{
    match serde_json::from_str::<serde_json::Value>(s) {
        Ok(v) => match v.get("results").and_then(|r| r.as_array()) {
            Some(a) => a.iter().map(|x| x.to_string()).collect(),
            None => Vec::new(),
        },
        Err(_) => Vec::new(),
    }
}

/// The findings a JSON document holds, each as compact JSON text: an
/// array's items, any other value alone.
pub uninterp spec fn json_list_of(s: Seq<char>) -> Seq<Seq<char>>;

/// `serde_json::from_str::<Value>`: `None` when the text is not JSON; an
/// array gives its items, any other value itself alone, each written back
/// with `Value::to_string`.
#[verifier::external_body]
fn parse_json_list(s: &str) -> (r: Option<Vec<String>>)
    ensures
        r is Some <==> json_parses(s@),
        r matches Some(v) ==> strs_view(v@) == json_list_of(s@),
{
    match serde_json::from_str::<serde_json::Value>(s) {
        Ok(serde_json::Value::Array(a)) => Some(a.iter().map(|x| x.to_string()).collect()),
        Ok(other) => Some(vec![other.to_string()]),
        Err(_) => None,
    }
}

/// A line read as a JSON finding: trimmed, not blank, opening with `{`
/// where `brace` asks it, and parsing.
pub open spec fn json_line(l: Seq<char>, brace: bool) -> bool {
    let t = trim(l);
    t.len() > 0 && (!brace || starts_with(t, "{"@)) && json_parses(t)
}

/// The JSON findings among lines, in order, each trimmed.
pub open spec fn json_line_texts(ls: Seq<Seq<char>>, brace: bool) -> Seq<Seq<char>>
    decreases ls.len(),
{
    if ls.len() == 0 {
        Seq::empty()
    } else {
        json_line_texts(ls.drop_last(), brace) + if json_line(ls.last(), brace) {
            seq![trim(ls.last())]
        } else {
            Seq::empty()
        }
    }
}

/// The JSON findings of a line-per-finding output: the text of each line
/// that reads as one, trimmed, in the order of the lines.
pub fn json_lines(stdout: &str, brace: bool) -> (r: Vec<String>)
    ensures
        strs_view(r@) == json_line_texts(lines_spec(stdout@), brace),
{
    let ls = lines_of(stdout);
    let ghost lv = seqs_view(ls@);
    let mut out: Vec<String> = Vec::new();
    let mut i: usize = 0;
    while i < ls.len()
        invariant
            i <= ls@.len(),
            lv == seqs_view(ls@),
            strs_view(out@) == json_line_texts(lv.take(i as int), brace),
        decreases ls@.len() - i,
    {
        assert(lv.take(i + 1).drop_last() =~= lv.take(i as int));
        assert(lv.take(i + 1).last() == ls@[i as int]@);
        let t = trim_chars(ls[i].as_slice());
        let ts = string_of(t.as_slice());
        let open = chars_of("{");
        if t.len() > 0 && (!brace || crate::text::has_prefix(t.as_slice(), open.as_slice())) {
            if json_valid(ts.as_str()) {
                let ghost before = out@;
                out.push(ts);
                assert(strs_view(out@) =~= strs_view(before).push(ts@));
            }
        }
        i = i + 1;
    }
    assert(lv.take(ls@.len() as int) =~= lv);
    out
}

/// The lines of a text that parse as JSON as they stand, in order.
pub open spec fn raw_json_line_texts(ls: Seq<Seq<char>>) -> Seq<Seq<char>>
    decreases ls.len(),
{
    if ls.len() == 0 {
        Seq::empty()
    } else {
        raw_json_line_texts(ls.drop_last()) + if json_parses(ls.last()) {
            seq![ls.last()]
        } else {
            Seq::empty()
        }
    }
}

fn raw_json_lines(text: &str) -> (r: Vec<String>)
    ensures
        strs_view(r@) == raw_json_line_texts(lines_spec(text@)),
{
    let ls = lines_of(text);
    let ghost lv = seqs_view(ls@);
    let mut out: Vec<String> = Vec::new();
    let mut i: usize = 0;
    while i < ls.len()
        invariant
            i <= ls@.len(),
            lv == seqs_view(ls@),
            strs_view(out@) == raw_json_line_texts(lv.take(i as int)),
        decreases ls@.len() - i,
    {
        assert(lv.take(i + 1).drop_last() =~= lv.take(i as int));
        assert(lv.take(i + 1).last() == ls@[i as int]@);
        let line = string_of(ls[i].as_slice());
        if json_valid(line.as_str()) {
            let ghost before = out@;
            out.push(line);
            assert(strs_view(out@) =~= strs_view(before).push(ls@[i as int]@));
        }
        i = i + 1;
    }
    assert(lv.take(ls@.len() as int) =~= lv);
    out
}

/// The error of a run that produced nothing: the run's own, else its
/// standard error shortened (when there is any).
pub open spec fn fallback_error(error: Option<Seq<char>>, stderr: Seq<char>) -> Option<Seq<char>> {
    match error {
        Some(e) => Some(e),
        None => if stderr.len() > 0 {
            Some(spec_truncate_output(stderr, 800))
        } else {
            None
        },
    }
}

fn fallback_error_exec(result: &CliResult) -> (r: Option<String>)
    ensures
        ov(r) == fallback_error(ov(result.error), result.stderr@),
{
    match &result.error {
        Some(e) => Some(e.clone()),
        None => if chars_of(result.stderr.as_str()).len() > 0 {
            Some(truncate_output(result.stderr.as_str(), 800))
        } else {
            None
        },
    }
}

// ─── httpx ──────────────────────────────────────────────────────────────────

pub struct HttpxResponse {
    pub url: String,
    pub installed: bool,
    pub findings: Vec<String>,
    pub raw: String,
    pub error: Option<String>,
    pub duration_ms: u64,
    pub command: String,
}

pub open spec fn httpx_args_spec(target: Seq<char>) -> Seq<Seq<char>> {
    seq![
        "-u"@,
        target,
        "-silent"@,
        "-json"@,
        "-sc"@,
        "-title"@,
        "-td"@,
        "-server"@,
        "-cl"@,
        "-ip"@,
        "-timeout"@,
        "12"@,
        "-nc"@,
    ]
}

/// httpx's arguments: JSON lines with status, title, technologies, server,
/// length and IP.
pub fn httpx_build_args(p: &Vec<(String, String)>) -> (r: Result<Vec<String>, String>)
    ensures
        match r {
            Ok(a) => url_param_spec(p@) matches Ok(t) && strs_view(a@) == httpx_args_spec(t),
            Err(e) => url_param_spec(p@) == Err::<Seq<char>, Seq<char>>(e@),
        },
{
    let target = match url_param(p) {
        Ok(t) => t,
        Err(e) => return Err(e),
    };
    let mut args: Vec<String> = Vec::new();
    push_arg(&mut args, "-u");
    push_owned(&mut args, target);
    push_arg(&mut args, "-silent");
    push_arg(&mut args, "-json");
    push_arg(&mut args, "-sc");
    push_arg(&mut args, "-title");
    push_arg(&mut args, "-td");
    push_arg(&mut args, "-server");
    push_arg(&mut args, "-cl");
    push_arg(&mut args, "-ip");
    push_arg(&mut args, "-timeout");
    push_arg(&mut args, "12");
    push_arg(&mut args, "-nc");
    Ok(args)
}

/// The error of an httpx run with no response: a timeout, a missing binary
/// or a failed spawn as reported, anything else as "no response".
pub open spec fn httpx_error_spec(error: Option<Seq<char>>) -> Seq<char> {
    match error {
        Some(e) => if contains(e, "Timed out"@) || contains(e, "not installed"@) || contains(
            e,
            "Failed to spawn"@,
        ) {
            e
        } else {
            "No HTTP response parsed. Host may be down, blocked, or unreachable."@
        },
        None => "No HTTP response parsed. Host may be down, blocked, or unreachable."@,
    }
}

/// Reads an httpx run: one finding per JSON line.
pub fn httpx_parse_output(p: &Vec<(String, String)>, result: &CliResult) -> (r: Result<
    HttpxResponse,
    String,
>)
    ensures
        match r {
            Err(e) => url_param_spec(p@) == Err::<Seq<char>, Seq<char>>(e@),
            Ok(s) => url_param_spec(p@) == Ok::<Seq<char>, Seq<char>>(s.url@) && s.installed
                == result.installed && s.duration_ms == result.duration_ms && s.command@
                == result.command@ && if !result.installed {
                s.findings@.len() == 0 && s.raw@.len() == 0 && ov(s.error) == ov(result.error)
            } else {
                let f = json_line_texts(lines_spec(result.stdout@), true);
                let n = f.len();
                &&& strs_view(s.findings@) == f
                &&& s.raw@ == spec_truncate_output(result.stdout@, 20000)
                &&& ov(s.error) == if n == 0 {
                    Some(httpx_error_spec(ov(result.error)))
                } else {
                    None
                }
            },
        },
{
    let target = match url_param(p) {
        Ok(t) => t,
        Err(e) => return Err(e),
    };
    if !result.installed {
        proof {
            reveal_strlit("");
        }
        return Ok(
            HttpxResponse {
                url: target,
                installed: false,
                findings: Vec::new(),
                raw: lit(""),
                error: match &result.error {
                    Some(e) => Some(e.clone()),
                    None => None,
                },
                duration_ms: result.duration_ms,
                command: result.command.clone(),
            },
        );
    }
    let findings = json_lines(result.stdout.as_str(), true);
    let err = if findings.len() == 0 {
        Some(
            match &result.error {
                Some(e) => if str_contains(e.as_str(), "Timed out") || str_contains(
                    e.as_str(),
                    "not installed",
                ) || str_contains(e.as_str(), "Failed to spawn") {
                    e.clone()
                } else {
                    lit("No HTTP response parsed. Host may be down, blocked, or unreachable.")
                },
                None => lit("No HTTP response parsed. Host may be down, blocked, or unreachable."),
            },
        )
    } else {
        None
    };
    Ok(
        HttpxResponse {
            url: target,
            installed: true,
            findings,
            raw: truncate_output(result.stdout.as_str(), 20000),
            error: err,
            duration_ms: result.duration_ms,
            command: result.command.clone(),
        },
    )
}

// ─── ffuf ───────────────────────────────────────────────────────────────────

pub struct FfufResponse {
    pub url: String,
    pub installed: bool,
    pub findings: Vec<String>,
    pub wordlist: String,
    pub raw: String,
    pub error: Option<String>,
    pub duration_ms: u64,
    pub command: String,
}

/// The fuzzed URL: the target as given when it holds `FUZZ`, else with
/// `/FUZZ` appended.
pub open spec fn ffuf_target_spec(p: Seq<(String, String)>) -> Result<Seq<char>, Seq<char>> {
    match url_param_spec(p) {
        Ok(b) => Ok(
            if contains(b, "FUZZ"@) {
                b
            } else {
                b + "/FUZZ"@
            },
        ),
        Err(e) => Err(e),
    }
}

pub fn ffuf_target(p: &Vec<(String, String)>) -> (r: Result<String, String>)
    ensures
        res_view(r) == ffuf_target_spec(p@),
{
    match url_param(p) {
        Ok(b) => if str_contains(b.as_str(), "FUZZ") {
            Ok(b)
        } else {
            let mut v = chars_of(b.as_str());
            push_str(&mut v, "/FUZZ");
            Ok(string_of(v.as_slice()))
        },
        Err(e) => Err(e),
    }
}

pub open spec fn ffuf_args_spec(target: Seq<char>, wordlist: Seq<char>, report: Seq<char>) -> Seq<
    Seq<char>,
> {
    seq![
        "-u"@,
        target,
        "-w"@,
        wordlist,
        "-mc"@,
        "200,201,204,301,302,307,401,403"@,
        "-t"@,
        "25"@,
        "-timeout"@,
        "6"@,
        "-of"@,
        "json"@,
        "-o"@,
        report,
        "-s"@,
    ]
}

/// ffuf's arguments: the target, the wordlist (which must exist), the
/// interesting status codes, and a JSON report written to `report`.
pub fn ffuf_build_args(
    p: &Vec<(String, String)>,
    wordlist: &str,
    wordlist_exists: bool,
    report: &str,
) -> (r: Result<Vec<String>, String>)
    ensures
        match r {
            Ok(a) => wordlist_exists && (ffuf_target_spec(p@) matches Ok(t) && strs_view(a@)
                == ffuf_args_spec(t, wordlist@, report@)),
            Err(e) => match ffuf_target_spec(p@) {
                Err(x) => e@ == x,
                Ok(_) => !wordlist_exists && e@ == "Wordlist missing at "@ + wordlist@
                    + ". Create tools/wordlists/common-paths.txt"@,
            },
        },
{
    let target = match ffuf_target(p) {
        Ok(t) => t,
        Err(e) => return Err(e),
    };
    if !wordlist_exists {
        let mut m = chars_of("Wordlist missing at ");
        push_str(&mut m, wordlist);
        push_str(&mut m, ". Create tools/wordlists/common-paths.txt");
        return Err(string_of(m.as_slice()));
    }
    let mut args: Vec<String> = Vec::new();
    push_arg(&mut args, "-u");
    push_owned(&mut args, target);
    push_arg(&mut args, "-w");
    push_arg(&mut args, wordlist);
    push_arg(&mut args, "-mc");
    push_arg(&mut args, "200,201,204,301,302,307,401,403");
    push_arg(&mut args, "-t");
    push_arg(&mut args, "25");
    push_arg(&mut args, "-timeout");
    push_arg(&mut args, "6");
    push_arg(&mut args, "-of");
    push_arg(&mut args, "json");
    push_arg(&mut args, "-o");
    push_arg(&mut args, report);
    push_arg(&mut args, "-s");
    Ok(args)
}

/// Reads an ffuf run from its JSON report (`report_body`, empty when the
/// file could not be read).
pub fn ffuf_parse_output(
    p: &Vec<(String, String)>,
    wordlist: &str,
    result: &CliResult,
    report_body: &str,
) -> (r: Result<FfufResponse, String>)
    ensures
        match r {
            Err(e) => ffuf_target_spec(p@) == Err::<Seq<char>, Seq<char>>(e@),
            Ok(s) => ffuf_target_spec(p@) == Ok::<Seq<char>, Seq<char>>(s.url@) && s.wordlist@
                == wordlist@ && s.installed == result.installed && s.duration_ms
                == result.duration_ms && s.command@ == result.command@ && if !result.installed {
                s.findings@.len() == 0 && s.raw@.len() == 0 && ov(s.error) == ov(result.error)
            } else {
                let f = json_results_of(report_body@);
                let n = f.len();
                &&& strs_view(s.findings@) == f
                &&& s.raw@ == spec_truncate_output(report_body@, 40000)
                &&& ov(s.error) == if n == 0 && !result.ok && report_body@.len() == 0 {
                    fallback_error(ov(result.error), result.stderr@)
                } else {
                    None
                }
            },
        },
{
    let target = match ffuf_target(p) {
        Ok(t) => t,
        Err(e) => return Err(e),
    };
    if !result.installed {
        proof {
            reveal_strlit("");
        }
        return Ok(
            FfufResponse {
                url: target,
                installed: false,
                findings: Vec::new(),
                wordlist: lit(wordlist),
                raw: lit(""),
                error: match &result.error {
                    Some(e) => Some(e.clone()),
                    None => None,
                },
                duration_ms: result.duration_ms,
                command: result.command.clone(),
            },
        );
    }
    let findings = json_results(report_body);
    let err = if findings.len() == 0 && !result.ok && chars_of(report_body).len() == 0 {
        fallback_error_exec(result)
    } else {
        None
    };
    Ok(
        FfufResponse {
            url: target,
            installed: true,
            findings,
            wordlist: lit(wordlist),
            raw: truncate_output(report_body, 40000),
            error: err,
            duration_ms: result.duration_ms,
            command: result.command.clone(),
        },
    )
}

// ─── trivy and gitleaks (local paths) ───────────────────────────────────────

/// The path to scan as asked: the `path` parameter, `.` when absent or
/// empty (resolved against the repository by the caller).
pub fn scan_path_param(p: &Vec<(String, String)>) -> (r: String)
    ensures
        r@ == param_or_spec(p@, "path"@, "."@),
{
    param_or(p, "path", ".")
}

pub struct TrivyResponse {
    pub path: String,
    pub installed: bool,
    pub report: Option<String>,
    pub raw: String,
    pub error: Option<String>,
    pub duration_ms: u64,
    pub command: String,
}

pub open spec fn trivy_args_spec(path: Seq<char>) -> Seq<Seq<char>> {
    seq![
        "fs"@,
        "--format"@,
        "json"@,
        "--quiet"@,
        "--scanners"@,
        "vuln,secret,misconfig"@,
        "--severity"@,
        "HIGH,CRITICAL"@,
        path,
    ]
}

/// trivy's arguments: a filesystem scan for vulnerabilities, secrets and
/// misconfigurations of high and critical severity, as JSON.
pub fn trivy_build_args(path: &str) -> (r: Vec<String>)
    ensures
        strs_view(r@) == trivy_args_spec(path@),
{
    let mut args: Vec<String> = Vec::new();
    push_arg(&mut args, "fs");
    push_arg(&mut args, "--format");
    push_arg(&mut args, "json");
    push_arg(&mut args, "--quiet");
    push_arg(&mut args, "--scanners");
    push_arg(&mut args, "vuln,secret,misconfig");
    push_arg(&mut args, "--severity");
    push_arg(&mut args, "HIGH,CRITICAL");
    push_arg(&mut args, path);
    args
}

/// Reads a trivy run: its whole output is the JSON report.
pub fn trivy_parse_output(path: &str, result: &CliResult) -> (s: TrivyResponse)
    ensures
        s.path@ == path@,
        s.installed == result.installed,
        s.duration_ms == result.duration_ms,
        s.command@ == result.command@,
        !result.installed ==> s.report is None && s.raw@.len() == 0 && ov(s.error) == ov(
            result.error,
        ),
        result.installed ==> {
            &&& ov(s.report) == if json_parses(result.stdout@) {
                Some(result.stdout@)
            } else {
                None::<Seq<char>>
            }
            &&& s.raw@ == spec_truncate_output(result.stdout@, 80000)
            &&& ov(s.error) == if !json_parses(result.stdout@) && !result.ok {
                fallback_error(ov(result.error), result.stderr@)
            } else {
                None
            }
        },
{
    if !result.installed {
        proof {
            reveal_strlit("");
        }
        return TrivyResponse {
            path: lit(path),
            installed: false,
            report: None,
            raw: lit(""),
            error: match &result.error {
                Some(e) => Some(e.clone()),
                None => None,
            },
            duration_ms: result.duration_ms,
            command: result.command.clone(),
        };
    }
    let report = if json_valid(result.stdout.as_str()) {
        Some(result.stdout.clone())
    } else {
        None
    };
    let err = if report.is_none() && !result.ok {
        fallback_error_exec(result)
    } else {
        None
    };
    TrivyResponse {
        path: lit(path),
        installed: true,
        report,
        raw: truncate_output(result.stdout.as_str(), 80000),
        error: err,
        duration_ms: result.duration_ms,
        command: result.command.clone(),
    }
}

pub struct GitleaksResponse {
    pub path: String,
    pub installed: bool,
    pub findings: Vec<String>,
    pub raw: String,
    pub error: Option<String>,
    pub duration_ms: u64,
    pub command: String,
}

pub open spec fn gitleaks_args_spec(path: Seq<char>) -> Seq<Seq<char>> {
    seq![
        "detect"@,
        "--source"@,
        path,
        "--report-format"@,
        "json"@,
        "--report-path"@,
        "-"@,
        "--no-banner"@,
        "--exit-code"@,
        "0"@,
    ]
}

/// gitleaks' arguments: a JSON report on standard output, and exit code 0
/// so that leaks do not look like a crash.
pub fn gitleaks_build_args(path: &str) -> (r: Vec<String>)
    ensures
        strs_view(r@) == gitleaks_args_spec(path@),
{
    let mut args: Vec<String> = Vec::new();
    push_arg(&mut args, "detect");
    push_arg(&mut args, "--source");
    push_arg(&mut args, path);
    push_arg(&mut args, "--report-format");
    push_arg(&mut args, "json");
    push_arg(&mut args, "--report-path");
    push_arg(&mut args, "-");
    push_arg(&mut args, "--no-banner");
    push_arg(&mut args, "--exit-code");
    push_arg(&mut args, "0");
    args
}

/// The findings of a gitleaks output: a JSON document's (an array's items,
/// or the one value), else the lines that parse as JSON.
pub open spec fn gitleaks_findings(stdout: Seq<char>) -> Seq<Seq<char>> {
    let t = trim(stdout);
    if t.len() == 0 {
        Seq::empty()
    } else if json_parses(t) {
        json_list_of(t)
    } else {
        raw_json_line_texts(lines_spec(t))
    }
}

/// Reads a gitleaks run.
pub fn gitleaks_parse_output(path: &str, result: &CliResult) -> (s: GitleaksResponse)
    ensures
        s.path@ == path@,
        s.installed == result.installed,
        s.duration_ms == result.duration_ms,
        s.command@ == result.command@,
        !result.installed ==> s.findings@.len() == 0 && s.raw@.len() == 0 && ov(s.error) == ov(
            result.error,
        ),
        result.installed ==> {
            &&& strs_view(s.findings@) == gitleaks_findings(result.stdout@)
            &&& s.raw@ == spec_truncate_output(result.stdout@, 40000)
            &&& ov(s.error) == if !result.ok && gitleaks_findings(result.stdout@).len() == 0 {
                fallback_error(ov(result.error), result.stderr@)
            } else {
                None
            }
        },
{
    if !result.installed {
        proof {
            reveal_strlit("");
        }
        return GitleaksResponse {
            path: lit(path),
            installed: false,
            findings: Vec::new(),
            raw: lit(""),
            error: match &result.error {
                Some(e) => Some(e.clone()),
                None => None,
            },
            duration_ms: result.duration_ms,
            command: result.command.clone(),
        };
    }
    let t = trim_str(result.stdout.as_str());
    let findings: Vec<String> = if chars_of(t.as_str()).len() == 0 {
        Vec::new()
    } else {
        match parse_json_list(t.as_str()) {
            Some(v) => v,
            None => raw_json_lines(t.as_str()),
        }
    };
    let err = if !result.ok && findings.len() == 0 {
        fallback_error_exec(result)
    } else {
        None
    };
    GitleaksResponse {
        path: lit(path),
        installed: true,
        findings,
        raw: truncate_output(result.stdout.as_str(), 40000),
        error: err,
        duration_ms: result.duration_ms,
        command: result.command.clone(),
    }
}

// ─── nuclei ─────────────────────────────────────────────────────────────────

pub struct NucleiResponse {
    pub url: String,
    pub installed: bool,
    pub findings: Vec<String>,
    pub raw: String,
    pub error: Option<String>,
    pub duration_ms: u64,
    pub command: String,
    pub note: String,
}

/// The note shown when nuclei is missing.
pub open spec fn nuclei_install_note() -> Seq<char> {
    "Install: brew install nuclei && nuclei -update-templates"@
}

pub open spec fn nuclei_args_spec(target: Seq<char>, severity: Seq<char>, tags: Option<Seq<char>>) -> Seq<
    Seq<char>,
> {
    let base = seq![
        "-u"@,
        target,
        "-jsonl"@,
        "-silent"@,
        "-no-color"@,
        "-severity"@,
        severity,
        "-timeout"@,
        "10"@,
        "-retries"@,
        "1"@,
        "-rate-limit"@,
        "50"@,
        "-no-interactsh"@,
    ];
    match tags {
        Some(t) => if t.len() > 0 && tags_ok(t) {
            base.push("-tags"@).push(t)
        } else {
            base
        },
        None => base,
    }
}

/// nuclei's arguments for a general scan: JSON lines, the severities asked
/// (medium and up by default), rate-limited, no interaction callbacks, and
/// the tags asked when they are well-formed.
pub fn nuclei_build_args(target: &str, p: &Vec<(String, String)>) -> (r: Vec<String>)
    ensures
        strs_view(r@) == nuclei_args_spec(
            target@,
            param_or_spec(p@, "severity"@, "medium,high,critical"@),
            match param_get(p@, "tags"@) {
                Some(t) => Some(trim(t)),
                None => None,
            },
        ),
{
    let severity = param_or(p, "severity", "medium,high,critical");
    let mut args: Vec<String> = Vec::new();
    push_arg(&mut args, "-u");
    push_arg(&mut args, target);
    push_arg(&mut args, "-jsonl");
    push_arg(&mut args, "-silent");
    push_arg(&mut args, "-no-color");
    push_arg(&mut args, "-severity");
    push_owned(&mut args, severity);
    push_arg(&mut args, "-timeout");
    push_arg(&mut args, "10");
    push_arg(&mut args, "-retries");
    push_arg(&mut args, "1");
    push_arg(&mut args, "-rate-limit");
    push_arg(&mut args, "50");
    push_arg(&mut args, "-no-interactsh");
    match param_value(p, "tags") {
        Some(t) => {
            let tt = trim_str(t.as_str());
            if chars_of(tt.as_str()).len() > 0 && tags_valid(tt.as_str()) {
                push_arg(&mut args, "-tags");
                push_owned(&mut args, tt);
            }
        },
        None => {},
    }
    args
}

/// Reads a nuclei scan: one finding per JSON line; no findings is an error
/// only when templates are missing or the run printed nothing and failed.
pub fn nuclei_parse_output(target: &str, severity: &str, result: &CliResult) -> (s: NucleiResponse)
    ensures
        s.url@ == target@,
        s.installed == result.installed,
        s.duration_ms == result.duration_ms,
        s.command@ == result.command@,
        !result.installed ==> s.findings@.len() == 0 && s.raw@.len() == 0 && ov(s.error) == ov(
            result.error,
        ) && s.note@ == nuclei_install_note(),
        result.installed ==> {
            let f = json_line_texts(lines_spec(result.stdout@), false);
            let n = f.len();
            let low = str_to_lowercase(result.stderr@);
            &&& strs_view(s.findings@) == f
            &&& s.raw@ == spec_truncate_output(result.stdout@, 50000)
            &&& ov(s.error) == if n > 0 {
                None
            } else if contains(low, "no templates"@) || contains(low, "could not find template"@) {
                Some("No templates found. Run: nuclei -update-templates"@)
            } else if result.stdout@.len() == 0 {
                ov(result.error)
            } else {
                None
            }
            &&& s.note@ == "severity="@ + severity@
                + "; no-interactsh; empty findings often means clean or templates missing"@
        },
{
    if !result.installed {
        proof {
            reveal_strlit("");
        }
        return NucleiResponse {
            url: lit(target),
            installed: false,
            findings: Vec::new(),
            raw: lit(""),
            error: match &result.error {
                Some(e) => Some(e.clone()),
                None => None,
            },
            duration_ms: result.duration_ms,
            command: result.command.clone(),
            note: lit("Install: brew install nuclei && nuclei -update-templates"),
        };
    }
    let findings = json_lines(result.stdout.as_str(), false);
    let err = if findings.len() > 0 {
        None
    } else {
        let low = lowercase(result.stderr.as_str());
        if str_contains(low.as_str(), "no templates") || str_contains(
            low.as_str(),
            "could not find template",
        ) {
            Some(lit("No templates found. Run: nuclei -update-templates"))
        } else if chars_of(result.stdout.as_str()).len() == 0 {
            match &result.error {
                Some(e) => Some(e.clone()),
                None => None,
            }
        } else {
            None
        }
    };
    let mut note = chars_of("severity=");
    push_str(&mut note, severity);
    push_str(&mut note, "; no-interactsh; empty findings often means clean or templates missing");
    NucleiResponse {
        url: lit(target),
        installed: true,
        findings,
        raw: truncate_output(result.stdout.as_str(), 50000),
        error: err,
        duration_ms: result.duration_ms,
        command: result.command.clone(),
        note: string_of(note.as_slice()),
    }
}

// ─── nuclei with WordPress templates ────────────────────────────────────────

pub struct WpNucleiResponse {
    pub url: String,
    pub installed: bool,
    pub findings: Vec<String>,
    pub raw: String,
    pub error: Option<String>,
    pub duration_ms: u64,
    pub command: String,
    pub note: String,
}

/// The tags of a WordPress scan: the `tags` parameter trimmed, else
/// `wordpress`.
pub open spec fn wp_tags_spec(p: Seq<(String, String)>) -> Seq<char> {
    match param_get(p, "tags"@) {
        Some(t) => if trim(t).len() > 0 {
            trim(t)
        } else {
            "wordpress"@
        },
        None => "wordpress"@,
    }
}

fn wp_tags(p: &Vec<(String, String)>) -> (r: String)
    ensures
        r@ == wp_tags_spec(p@),
{
    match param_value(p, "tags") {
        Some(t) => {
            let tt = trim_str(t.as_str());
            if chars_of(tt.as_str()).len() > 0 {
                tt
            } else {
                lit("wordpress")
            }
        },
        None => lit("wordpress"),
    }
}

pub open spec fn wp_severity_spec(p: Seq<(String, String)>) -> Seq<char> {
    param_or_spec(p, "severity"@, "low,medium,high,critical"@)
}

pub open spec fn wp_nuclei_args_spec(target: Seq<char>, severity: Seq<char>, tags: Seq<char>) -> Seq<
    Seq<char>,
> {
    seq![
        "-u"@,
        target,
        "-jsonl"@,
        "-silent"@,
        "-no-color"@,
        "-severity"@,
        severity,
        "-tags"@,
        tags,
        "-timeout"@,
        "10"@,
        "-retries"@,
        "1"@,
        "-rate-limit"@,
        "40"@,
        "-no-interactsh"@,
    ]
}

/// nuclei's arguments for a WordPress pass; malformed tags are refused.
pub fn wp_nuclei_build_args(p: &Vec<(String, String)>) -> (r: Result<Vec<String>, String>)
    ensures
        match r {
            Ok(a) => url_param_spec(p@) matches Ok(t) && tags_ok(wp_tags_spec(p@)) && strs_view(a@)
                == wp_nuclei_args_spec(t, wp_severity_spec(p@), wp_tags_spec(p@)),
            Err(e) => match url_param_spec(p@) {
                Err(x) => e@ == x,
                Ok(_) => !tags_ok(wp_tags_spec(p@)) && e@ == "Invalid tags"@,
            },
        },
{
    let target = match url_param(p) {
        Ok(t) => t,
        Err(e) => return Err(e),
    };
    let severity = param_or(p, "severity", "low,medium,high,critical");
    let tags = wp_tags(p);
    if !tags_valid(tags.as_str()) {
        return Err(lit("Invalid tags"));
    }
    let mut args: Vec<String> = Vec::new();
    push_arg(&mut args, "-u");
    push_owned(&mut args, target);
    push_arg(&mut args, "-jsonl");
    push_arg(&mut args, "-silent");
    push_arg(&mut args, "-no-color");
    push_arg(&mut args, "-severity");
    push_owned(&mut args, severity);
    push_arg(&mut args, "-tags");
    push_owned(&mut args, tags);
    push_arg(&mut args, "-timeout");
    push_arg(&mut args, "10");
    push_arg(&mut args, "-retries");
    push_arg(&mut args, "1");
    push_arg(&mut args, "-rate-limit");
    push_arg(&mut args, "40");
    push_arg(&mut args, "-no-interactsh");
    Ok(args)
}

/// Reads a WordPress nuclei pass: one finding per JSON object line.
pub fn wp_nuclei_parse_output(p: &Vec<(String, String)>, result: &CliResult) -> (r: Result<
    WpNucleiResponse,
    String,
>)
    ensures
        match r {
            Err(e) => url_param_spec(p@) == Err::<Seq<char>, Seq<char>>(e@),
            Ok(s) => url_param_spec(p@) == Ok::<Seq<char>, Seq<char>>(s.url@) && s.installed
                == result.installed && s.duration_ms == result.duration_ms && s.command@
                == result.command@ && if !result.installed {
                s.findings@.len() == 0 && s.raw@.len() == 0 && ov(s.error) == ov(result.error)
                    && s.note@ == nuclei_install_note()
            } else {
                let f = json_line_texts(lines_spec(result.stdout@), true);
                let n = f.len();
                &&& strs_view(s.findings@) == f
                &&& s.raw@ == spec_truncate_output(result.stdout@, 50000)
                &&& ov(s.error) == if n > 0 {
                    None
                } else if contains(str_to_lowercase(result.stderr@), "no templates"@) {
                    Some("No WP templates found. Run: nuclei -update-templates"@)
                } else {
                    ov(result.error)
                }
                &&& s.note@ == "tags="@ + wp_tags_spec(p@) + "; severity="@ + wp_severity_spec(p@)
                    + "; WordPress-focused nuclei pass"@
            },
        },
{
    let target = match url_param(p) {
        Ok(t) => t,
        Err(e) => return Err(e),
    };
    if !result.installed {
        proof {
            reveal_strlit("");
        }
        return Ok(
            WpNucleiResponse {
                url: target,
                installed: false,
                findings: Vec::new(),
                raw: lit(""),
                error: match &result.error {
                    Some(e) => Some(e.clone()),
                    None => None,
                },
                duration_ms: result.duration_ms,
                command: result.command.clone(),
                note: lit("Install: brew install nuclei && nuclei -update-templates"),
            },
        );
    }
    let findings = json_lines(result.stdout.as_str(), true);
    let err = if findings.len() > 0 {
        None
    } else if str_contains(lowercase(result.stderr.as_str()).as_str(), "no templates") {
        Some(lit("No WP templates found. Run: nuclei -update-templates"))
    } else {
        match &result.error {
            Some(e) => Some(e.clone()),
            None => None,
        }
    };
    let severity = param_or(p, "severity", "low,medium,high,critical");
    let tags = wp_tags(p);
    let mut note = chars_of("tags=");
    push_str(&mut note, tags.as_str());
    push_str(&mut note, "; severity=");
    push_str(&mut note, severity.as_str());
    push_str(&mut note, "; WordPress-focused nuclei pass");
    Ok(
        WpNucleiResponse {
            url: target,
            installed: true,
            findings,
            raw: truncate_output(result.stdout.as_str(), 50000),
            error: err,
            duration_ms: result.duration_ms,
            command: result.command.clone(),
            note: string_of(note.as_slice()),
        },
    )
}

} // verus!
