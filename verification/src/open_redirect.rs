//! Open-redirect check: appends each known redirect parameter to the target
//! with an off-site payload and flags every 3xx answer whose `Location`
//! points at the payload's host. The requests are sent by the caller.

use vstd::prelude::*;

use crate::text::ov;
use crate::common::has_char;
use crate::text::{
    chars_of, contains, decimal, decimal_chars, lit, push_all, push_str, str_contains, string_of,
    strs_view, trim, trim_str,
};

verus! {

pub struct RedirectTest {
    pub param: String,
    pub url: String,
    pub status: Option<u16>,
    pub location: Option<String>,
    pub vulnerable: bool,
    pub note: String,
}

pub struct RedirectResponse {
    pub url: String,
    pub installed: bool,
    pub tests: Vec<RedirectTest>,
    pub vulnerable: bool,
    pub error: Option<String>,
    pub duration_ms: u64,
    pub command: String,
}

/// Number of redirect parameters probed.
pub const PARAM_COUNT: usize = 18;

/// The value every probe puts in the parameter.
pub open spec fn payload() -> Seq<char> {
    "//evil.example"@
}

/// The redirect parameters, in probing order.
pub open spec fn redirect_param(k: int) -> Seq<char> {
    if k == 0 {
        "url"@
    } else if k == 1 {
        "redirect"@
    } else if k == 2 {
        "next"@
    } else if k == 3 {
        "return"@
    } else if k == 4 {
        "returnUrl"@
    } else if k == 5 {
        "return_url"@
    } else if k == 6 {
        "dest"@
    } else if k == 7 {
        "destination"@
    } else if k == 8 {
        "target"@
    } else if k == 9 {
        "continue"@
    } else if k == 10 {
        "rurl"@
    } else if k == 11 {
        "out"@
    } else if k == 12 {
        "view"@
    } else if k == 13 {
        "to"@
    } else if k == 14 {
        "go"@
    } else if k == 15 {
        "jump"@
    } else if k == 16 {
        "u"@
    } else {
        "r"@
    }
}

pub fn redirect_param_exec(k: usize) -> (r: &'static str)
    requires
        k < PARAM_COUNT,
    ensures
        r@ == redirect_param(k as int),
{
    if k == 0 {
        "url"
    } else if k == 1 {
        "redirect"
    } else if k == 2 {
        "next"
    } else if k == 3 {
        "return"
    } else if k == 4 {
        "returnUrl"
    } else if k == 5 {
        "return_url"
    } else if k == 6 {
        "dest"
    } else if k == 7 {
        "destination"
    } else if k == 8 {
        "target"
    } else if k == 9 {
        "continue"
    } else if k == 10 {
        "rurl"
    } else if k == 11 {
        "out"
    } else if k == 12 {
        "view"
    } else if k == 13 {
        "to"
    } else if k == 14 {
        "go"
    } else if k == 15 {
        "jump"
    } else if k == 16 {
        "u"
    } else {
        "r"
    }
}

/// A `Location` that points at the payload's host.
pub open spec fn looks_offsite_spec(location: Seq<char>) -> bool {
    let l = trim(location);
    contains(l, "//evil.example"@) || contains(l, "https://evil.example"@) || contains(
        l,
        "http://evil.example"@,
    )
}

pub fn looks_offsite(location: &str) -> (b: bool)
    ensures
        b == looks_offsite_spec(location@),
{
    let l = trim_str(location);
    str_contains(l.as_str(), "//evil.example") || str_contains(l.as_str(), "https://evil.example")
        || str_contains(l.as_str(), "http://evil.example")
}

/// The URL probed for one parameter: `&` joins it to an existing query,
/// `?` starts one.
pub open spec fn probe_url_spec(target: Seq<char>, param: Seq<char>) -> Seq<char> {
    let sep = if target.contains('?') {
        '&'
    } else {
        '?'
    };
    target.push(sep) + param + "="@ + payload()
}

pub fn probe_url(target: &str, param: &str) -> (r: String)
    ensures
        r@ == probe_url_spec(target@, param@),
{
    let mut v = chars_of(target);
    let has_query = has_char(v.as_slice(), '?');
    if has_query {
        v.push('&');
    } else {
        v.push('?');
    }
    push_str(&mut v, param);
    push_str(&mut v, "=");
    push_str(&mut v, "//evil.example");
    string_of(v.as_slice())
}

/// Every probe URL, in parameter order.
pub open spec fn probe_urls_spec(target: Seq<char>) -> Seq<Seq<char>> {
    Seq::new(PARAM_COUNT as nat, |k: int| probe_url_spec(target, redirect_param(k)))
}

pub fn probe_urls(target: &str) -> (r: Vec<String>)
    ensures
        strs_view(r@) == probe_urls_spec(target@),
{
    let mut out: Vec<String> = Vec::new();
    let mut k: usize = 0;
    while k < PARAM_COUNT
        invariant
            k <= PARAM_COUNT,
            strs_view(out@) =~= probe_urls_spec(target@).take(k as int),
        decreases PARAM_COUNT - k,
    {
        let u = probe_url(target, redirect_param_exec(k));
        let ghost prev = strs_view(out@);
        out.push(u);
        assert(strs_view(out@) =~= prev.push(u@));
        assert(probe_urls_spec(target@).take(k + 1) =~= probe_urls_spec(target@).take(k as int).push(
            probe_url_spec(target@, redirect_param(k as int)),
        ));
        k = k + 1;
    }
    out
}

/// The reason phrase that `http::StatusCode` gives a code, if any.
pub uninterp spec fn canonical_reason_of(code: u16) -> Option<Seq<char>>;

/// `http::StatusCode::canonical_reason` (through `from_u16`): the standard
/// reason phrase of a status code, `None` where it has none or the code is
/// not a valid status. Only that it depends on the code alone is claimed.
#[verifier::external_body]
fn canonical_reason(code: u16) -> (r: Option<String>)
    ensures
        ov(r) == canonical_reason_of(code),
{
    reqwest::StatusCode::from_u16(code).ok().and_then(|s| s.canonical_reason()).map(
        |s| s.to_string(),
    )
}

/// How `StatusCode` prints: the number, then the reason phrase.
pub open spec fn status_display(code: u16) -> Seq<char> {
    decimal(code as nat) + " "@ + match canonical_reason_of(code) {
        Some(r) => r,
        None => "<unknown status code>"@,
    }
}

pub fn status_text(code: u16) -> (r: String)
    ensures
        r@ == status_display(code),
{
    let mut v = decimal_chars(code as u64);
    v.push(' ');
    match canonical_reason(code) {
        Some(reason) => push_str(&mut v, reason.as_str()),
        None => push_str(&mut v, "<unknown status code>"),
    }
    proof {
        reveal_strlit(" ");
    }
    string_of(v.as_slice())
}

pub open spec fn is_redirection(code: u16) -> bool {
    300 <= code < 400
}

/// What a probe got back: its status and `Location` header (a value that is
/// not visible text counts as absent).
pub struct RedirectAnswer {
    pub status: u16,
    pub location: Option<String>,
}

pub struct TestV {
    pub param: Seq<char>,
    pub url: Seq<char>,
    pub status: Option<u16>,
    pub location: Option<Seq<char>>,
    pub vulnerable: bool,
    pub note: Seq<char>,
}

pub open spec fn test_v(t: RedirectTest) -> TestV {
    TestV {
        param: t.param@,
        url: t.url@,
        status: t.status,
        location: ov(t.location),
        vulnerable: t.vulnerable,
        note: t.note@,
    }
}

pub open spec fn tests_view(v: Seq<RedirectTest>) -> Seq<TestV> {
    v.map_values(|t: RedirectTest| test_v(t))
}

pub open spec fn reply_view(r: Result<RedirectAnswer, String>) -> Result<
    (u16, Option<Seq<char>>),
    Seq<char>,
> {
    match r {
        Ok(a) => Ok((a.status, ov(a.location))),
        Err(e) => Err(e@),
    }
}

/// The test recorded for one probe.
pub open spec fn test_spec(
    param: Seq<char>,
    url: Seq<char>,
    reply: Result<(u16, Option<Seq<char>>), Seq<char>>,
) -> TestV {
    match reply {
        Ok((status, location)) => {
            let vuln = is_redirection(status) && match location {
                Some(l) => looks_offsite_spec(l),
                None => false,
            };
            let note = if vuln {
                "Redirects to attacker-controlled host"@
            } else if is_redirection(status) {
                "Redirects ("@ + status_display(status)
                    + ") but Location stays on-site or is filtered"@
            } else {
                "HTTP "@ + status_display(status) + " — no off-site redirect"@
            };
            TestV { param, url, status: Some(status), location, vulnerable: vuln, note }
        },
        Err(_) => TestV {
            param,
            url,
            status: None,
            location: None,
            vulnerable: false,
            note: "Request failed"@,
        },
    }
}

fn opt_clone(o: &Option<String>) -> (r: Option<String>)
    ensures
        ov(r) == ov(*o),
{
    match o {
        Some(s) => Some(s.clone()),
        None => None,
    }
}

/// Records one probe's outcome.
pub fn redirect_test(param: &str, url: &str, reply: &Result<RedirectAnswer, String>) -> (t:
    RedirectTest)
    ensures
        test_v(t) == test_spec(param@, url@, reply_view(*reply)),
{
    match reply {
        Ok(a) => {
            let redirect = 300 <= a.status && a.status < 400;
            let offsite = match &a.location {
                Some(l) => looks_offsite(l.as_str()),
                None => false,
            };
            let vuln = redirect && offsite;
            let note = if vuln {
                lit("Redirects to attacker-controlled host")
            } else if redirect {
                let mut n = chars_of("Redirects (");
                push_str(&mut n, status_text(a.status).as_str());
                push_str(&mut n, ") but Location stays on-site or is filtered");
                string_of(n.as_slice())
            } else {
                let mut n = chars_of("HTTP ");
                push_str(&mut n, status_text(a.status).as_str());
                push_str(&mut n, " — no off-site redirect");
                string_of(n.as_slice())
            };
            RedirectTest {
                param: lit(param),
                url: lit(url),
                status: Some(a.status),
                location: opt_clone(&a.location),
                vulnerable: vuln,
                note,
            }
        },
        Err(_) => RedirectTest {
            param: lit(param),
            url: lit(url),
            status: None,
            location: None,
            vulnerable: false,
            note: lit("Request failed"),
        },
    }
}

/// The last failed probe's message, `param: error`.
pub open spec fn last_error(rs: Seq<Result<(u16, Option<Seq<char>>), Seq<char>>>) -> Option<
    Seq<char>,
>
    decreases rs.len(),
{
    if rs.len() == 0 {
        None
    } else {
        match rs.last() {
            Err(e) => Some(redirect_param(rs.len() - 1) + ": "@ + e),
            Ok(_) => last_error(rs.drop_last()),
        }
    }
}

pub open spec fn replies_view(rs: Seq<Result<RedirectAnswer, String>>) -> Seq<
    Result<(u16, Option<Seq<char>>), Seq<char>>,
> {
    rs.map_values(|r: Result<RedirectAnswer, String>| reply_view(r))
}

/// The tests of a whole run: one per parameter, in order.
pub open spec fn tests_spec(
    target: Seq<char>,
    rs: Seq<Result<(u16, Option<Seq<char>>), Seq<char>>>,
) -> Seq<TestV> {
    Seq::new(
        rs.len(),
        |k: int| test_spec(redirect_param(k), probe_url_spec(target, redirect_param(k)), rs[k]),
    )
}

pub open spec fn any_vulnerable(ts: Seq<TestV>) -> bool {
    exists|i: int| 0 <= i < ts.len() && (#[trigger] ts[i]).vulnerable
}

pub open spec fn command_spec() -> Seq<char> {
    "builtin (native HTTP, "@ + decimal(PARAM_COUNT as nat) + " redirect params probed)"@
}

/// Builds the check's answer from one reply per parameter, in the order
/// of `probe_urls`.
pub fn redirect_report(
    target: &str,
    replies: &Vec<Result<RedirectAnswer, String>>,
    duration_ms: u64,
) -> (r: RedirectResponse)
    requires
        replies@.len() == PARAM_COUNT,
    ensures
        r.url@ == target@,
        r.installed,
        r.duration_ms == duration_ms,
        r.command@ == command_spec(),
        tests_view(r.tests@) == tests_spec(target@, replies_view(replies@)),
        ov(r.error) == last_error(replies_view(replies@)),
        r.vulnerable == any_vulnerable(tests_view(r.tests@)),
{
    let ghost rv = replies_view(replies@);
    let mut tests: Vec<RedirectTest> = Vec::new();
    let mut error: Option<String> = None;
    let mut vulnerable = false;
    let mut k: usize = 0;
    while k < PARAM_COUNT
        invariant
            k <= PARAM_COUNT,
            replies@.len() == PARAM_COUNT,
            rv == replies_view(replies@),
            tests_view(tests@) =~= tests_spec(target@, rv.take(k as int)),
            ov(error) == last_error(rv.take(k as int)),
            vulnerable == any_vulnerable(tests_view(tests@)),
        decreases PARAM_COUNT - k,
    {
        assert(rv.take(k + 1).drop_last() =~= rv.take(k as int));
        assert(rv.take(k + 1).last() == rv[k as int]);
        let param = redirect_param_exec(k);
        let url = probe_url(target, param);
        let t = redirect_test(param, url.as_str(), &replies[k]);
        if let Err(e) = &replies[k] {
            let mut m = chars_of(param);
            push_str(&mut m, ": ");
            push_all(&mut m, chars_of(e.as_str()).as_slice());
            error = Some(string_of(m.as_slice()));
        }
        let ghost prev = tests_view(tests@);
        let tv = t.vulnerable;
        tests.push(t);
        assert(tests_view(tests@) =~= prev.push(test_v(t)));
        proof {
            let now = tests_view(tests@);
            if any_vulnerable(prev) {
                let j = choose|j: int| 0 <= j < prev.len() && prev[j].vulnerable;
                assert(now[j] == prev[j]);
            }
            if tv {
                assert(now[prev.len() as int].vulnerable);
            }
            if any_vulnerable(now) {
                let j = choose|j: int| 0 <= j < now.len() && now[j].vulnerable;
                if j < prev.len() {
                    assert(prev[j] == now[j]);
                }
            }
        }
        vulnerable = vulnerable || tv;
        k = k + 1;
    }
    assert(rv.take(PARAM_COUNT as int) =~= rv);
    let mut cmd = chars_of("builtin (native HTTP, ");
    push_all(&mut cmd, decimal_chars(PARAM_COUNT as u64).as_slice());
    push_str(&mut cmd, " redirect params probed)");
    RedirectResponse {
        url: lit(target),
        installed: true,
        tests,
        vulnerable,
        error,
        duration_ms,
        command: string_of(cmd.as_slice()),
    }
}

/// Every 3xx answer is a redirect: one whose `Location` looks off-site is
/// flagged vulnerable with the note that says so, whatever the 3xx code
/// (301, 302, 303, 307 and 308 alike); an answer outside 300–399 never is.
pub proof fn offsite_redirects_flagged(
    param: Seq<char>,
    url: Seq<char>,
    status: u16,
    location: Option<Seq<char>>,
)
    ensures
        300 <= status <= 399 && (location matches Some(l) && looks_offsite_spec(l)) ==> {
            let t = test_spec(param, url, Ok((status, location)));
            &&& t.vulnerable
            &&& t.note == "Redirects to attacker-controlled host"@
            &&& t.status == Some(status)
        },
        !(300 <= status <= 399) ==> !test_spec(param, url, Ok((status, location))).vulnerable,
        !(location matches Some(l) && looks_offsite_spec(l)) ==> !test_spec(
            param,
            url,
            Ok((status, location)),
        ).vulnerable,
{
}

proof fn scheme_match_has_host_match(l: Seq<char>, scheme: Seq<char>)
    requires
        scheme == "https:"@ || scheme == "http:"@,
        contains(l, scheme + "//evil.example"@),
    ensures
        contains(l, "//evil.example"@),
{
    let full = scheme + "//evil.example"@;
    let i = choose|i: int| crate::text::match_at(l, full, i);
    let k = scheme.len() as int;
    assert(l.subrange(i + k, i + k + "//evil.example"@.len()) =~= full.subrange(k, full.len() as int));
    assert(full.subrange(k, full.len() as int) =~= "//evil.example"@);
    assert(crate::text::match_at(l, "//evil.example"@, i + k));
}

/// A `Location` counts as off-site exactly when, trimmed, it names the
/// payload host after `//` (with or without a scheme).
pub proof fn offsite_means_payload_host(location: Seq<char>)
    ensures
        looks_offsite_spec(location) <==> contains(trim(location), "//evil.example"@),
{
    let l = trim(location);
    reveal_strlit("https://evil.example");
    reveal_strlit("http://evil.example");
    reveal_strlit("//evil.example");
    reveal_strlit("https:");
    reveal_strlit("http:");
    assert("https:"@ + "//evil.example"@ =~= "https://evil.example"@);
    assert("http:"@ + "//evil.example"@ =~= "http://evil.example"@);
    if contains(l, "https://evil.example"@) {
        scheme_match_has_host_match(l, "https:"@);
    }
    if contains(l, "http://evil.example"@) {
        scheme_match_has_host_match(l, "http:"@);
    }
}

} // verus!
