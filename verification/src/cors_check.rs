//! CORS misconfiguration check: the six attacker-controlled origins derived
//! from the target's host, how each answer's `Access-Control-Allow-Origin` /
//! `-Credentials` pair is rated, and the overall risk. The requests are sent
//! by the caller.

use vstd::prelude::*;

use crate::attack_surface::pairs_view;
use crate::text::ov;

use crate::text::{
    chars_of, eq_ignore_ascii_case, first_match, join, join_chars, lemma_first_match,
    lemma_split_nonempty, lit, push_all, push_str, seqs_view, slice_chars, split_char,
    split_chars, starts_with, str_eq, str_eq_ignore_ascii_case, string_of, trim, trim_chars,
};

verus! {

pub struct CorsTest {
    pub name: String,
    pub origin: String,
    pub allow_origin: Option<String>,
    pub allow_credentials: bool,
    pub reflects_origin: bool,
    pub verdict: String,
    pub note: String,
}

pub struct CorsResponse {
    pub url: String,
    pub installed: bool,
    pub tests: Vec<CorsTest>,
    pub high_risk: bool,
    pub medium_risk: bool,
    pub error: Option<String>,
    pub duration_ms: u64,
    pub command: String,
}

/// Host part of a URL: between `://` and the next `/` (empty without `://`).
pub open spec fn host_spec(url: Seq<char>) -> Seq<char> {
    match first_match(url, "://"@, 0) {
        Some(i) => split_char(url.skip(i + 3), '/')[0],
        None => seq![],
    }
}

pub fn extract_host(base_url: &str) -> (r: String)
    ensures
        r@ == host_spec(base_url@),
{
    let v = chars_of(base_url);
    let m = chars_of("://");
    proof {
        lemma_first_match(v@, m@, 0);
        reveal_strlit("://");
    }
    match crate::text::find_chars(v.as_slice(), m.as_slice(), 0) {
        Some(i) => {
            assert(m@.len() == 3);
            assert(crate::text::match_at(v@, m@, i as int));
            let n = v.len();
            let rest = slice_chars(v.as_slice(), i + 3, n);
            assert(rest@ =~= v@.skip(i + 3));
            let parts = split_chars(rest.as_slice(), '/');
            proof {
                lemma_split_nonempty(rest@, '/');
            }
            assert(seqs_view(parts@)[0] == parts@[0]@);
            let h = string_of(parts[0].as_slice());
            assert(h@ == host_spec(base_url@));
            h
        },
        None => {
            proof {
                reveal_strlit("");
            }
            let h = lit("");
            assert(h@ =~= seq![]);
            h
        },
    }
}

/// The last two dot-separated labels of a host.
pub open spec fn domain_spec(host: Seq<char>) -> Seq<char> {
    let labels = split_char(host, '.');
    if labels.len() >= 2 {
        join(labels.skip(labels.len() - 2), "."@)
    } else {
        join(labels, "."@)
    }
}

pub fn registrable_domain(host: &str) -> (r: String)
    ensures
        r@ == domain_spec(host@),
{
    let v = chars_of(host);
    let labels = split_chars(v.as_slice(), '.');
    let n = labels.len();
    if n >= 2 {
        let mut tail: Vec<Vec<char>> = Vec::new();
        let a = slice_chars(labels[n - 2].as_slice(), 0, labels[n - 2].len());
        let b = slice_chars(labels[n - 1].as_slice(), 0, labels[n - 1].len());
        assert(a@ =~= labels@[n - 2]@);
        assert(b@ =~= labels@[n - 1]@);
        tail.push(a);
        tail.push(b);
        assert(seqs_view(tail@)[0] == seqs_view(labels@)[n - 2]);
        assert(seqs_view(tail@)[1] == seqs_view(labels@)[n - 1]);
        assert(seqs_view(tail@) =~= seqs_view(labels@).skip(n - 2));
        string_of(join_chars(&tail, ".").as_slice())
    } else {
        string_of(join_chars(&labels, ".").as_slice())
    }
}

/// The sibling host tried as a "trusted subdomain": without `www.` when
/// the host has it, else `www.` + domain.
pub open spec fn www_spec(host: Seq<char>) -> Seq<char> {
    if starts_with(host, "www."@) {
        host.skip(4)
    } else {
        "www."@ + domain_spec(host)
    }
}

/// The six probes: (name, origin).
pub open spec fn cases_spec(host: Seq<char>) -> Seq<(Seq<char>, Seq<char>)> {
    let domain = domain_spec(host);
    seq![
        ("Arbitrary origin"@, "https://evil.com"@),
        ("Null origin"@, "null"@),
        ("Trusted subdomain"@, "https://"@ + www_spec(host)),
        ("Prefix-match bypass"@, "https://"@ + domain + ".evil.com"@),
        ("Suffix-match bypass"@, "https://evil"@ + domain),
        ("Scheme swap"@, "http://"@ + host),
    ]
}

fn cat(a: &str, b: &str) -> (r: String)
    ensures
        r@ == a@ + b@,
{
    let mut v = chars_of(a);
    push_str(&mut v, b);
    string_of(v.as_slice())
}

fn push_case(v: &mut Vec<(String, String)>, name: &str, origin: String)
    ensures
        pairs_view(final(v)@) == pairs_view(old(v)@).push((name@, origin@)),
{
    let ghost prev = pairs_view(v@);
    let ghost ov = origin@;
    v.push((lit(name), origin));
    assert(pairs_view(v@) =~= prev.push((name@, ov)));
}

/// The origins probed for a target URL.
pub fn origin_cases(target: &str) -> (r: Vec<(String, String)>)
    ensures
        pairs_view(r@) == cases_spec(host_spec(target@)),
{
    let host = extract_host(target);
    let domain = registrable_domain(host.as_str());
    let hv = chars_of(host.as_str());
    let www_p = chars_of("www.");
    let www = if crate::text::has_prefix(hv.as_slice(), www_p.as_slice()) {
        proof {
            reveal_strlit("www.");
        }
        let n = hv.len();
        let rest = slice_chars(hv.as_slice(), 4, n);
        assert(rest@ =~= host@.skip(4));
        string_of(rest.as_slice())
    } else {
        cat("www.", domain.as_str())
    };
    let mut v: Vec<(String, String)> = Vec::new();
    assert(pairs_view(v@) =~= Seq::<(Seq<char>, Seq<char>)>::empty());
    push_case(&mut v, "Arbitrary origin", lit("https://evil.com"));
    push_case(&mut v, "Null origin", lit("null"));
    push_case(&mut v, "Trusted subdomain", cat("https://", www.as_str()));
    let mut p = chars_of("https://");
    push_str(&mut p, domain.as_str());
    push_str(&mut p, ".evil.com");
    push_case(&mut v, "Prefix-match bypass", string_of(p.as_slice()));
    push_case(&mut v, "Suffix-match bypass", cat("https://evil", domain.as_str()));
    push_case(&mut v, "Scheme swap", cat("http://", host.as_str()));
    assert(pairs_view(v@) =~= cases_spec(host@));
    v
}

/// Rating and explanation of one answer.
pub open spec fn verdict_spec(
    allow_origin: Option<Seq<char>>,
    credentials: bool,
    reflects: bool,
    origin: Seq<char>,
) -> (Seq<char>, Seq<char>) {
    match allow_origin {
        None => ("ok"@, "No Access-Control-Allow-Origin header — not CORS-enabled here."@),
        Some(ao) => if trim(ao) == "*"@ && !credentials {
            (
                "low"@,
                "Wildcard origin `*` (no credentials) — readable by any site but cookies are not sent."@,
            )
        } else if trim(ao) == "*"@ && credentials {
            (
                "high"@,
                "Wildcard `*` combined with Allow-Credentials — browsers reject this, but the config is broken."@,
            )
        } else if reflects && credentials {
            (
                "critical"@,
                "Reflects origin `"@ + origin
                    + "` AND allows credentials — attacker-controlled site can read authenticated responses."@,
            )
        } else if reflects {
            (
                "medium"@,
                "Reflects arbitrary origin `"@ + origin
                    + "` without credentials — data readable cross-origin, but no cookie auth."@,
            )
        } else {
            ("low"@, "Returned an explicit allow-origin that is not attacker-controlled."@)
        },
    }
}

pub fn verdict(allow_origin: Option<&str>, credentials: bool, reflects: bool, origin: &str) -> (r: (
    String,
    String,
))
    ensures
        (r.0@, r.1@) == verdict_spec(
            match allow_origin {
                Some(a) => Some(a@),
                None => None,
            },
            credentials,
            reflects,
            origin@,
        ),
{
    match allow_origin {
        None => (lit("ok"), lit("No Access-Control-Allow-Origin header — not CORS-enabled here.")),
        Some(ao) => {
            let star = str_eq(crate::text::trim_str(ao).as_str(), "*");
            if star && !credentials {
                (
                    lit("low"),
                    lit(
                        "Wildcard origin `*` (no credentials) — readable by any site but cookies are not sent.",
                    ),
                )
            } else if star && credentials {
                (
                    lit("high"),
                    lit(
                        "Wildcard `*` combined with Allow-Credentials — browsers reject this, but the config is broken.",
                    ),
                )
            } else if reflects && credentials {
                let mut n = chars_of("Reflects origin `");
                push_str(&mut n, origin);
                push_str(
                    &mut n,
                    "` AND allows credentials — attacker-controlled site can read authenticated responses.",
                );
                (lit("critical"), string_of(n.as_slice()))
            } else if reflects {
                let mut n = chars_of("Reflects arbitrary origin `");
                push_str(&mut n, origin);
                push_str(
                    &mut n,
                    "` without credentials — data readable cross-origin, but no cookie auth.",
                );
                (lit("medium"), string_of(n.as_slice()))
            } else {
                (lit("low"), lit("Returned an explicit allow-origin that is not attacker-controlled."))
            }
        },
    }
}

/// The two response headers read (values that are not visible text count
/// as absent).
pub struct CorsAnswer {
    pub allow_origin: Option<String>,
    pub allow_credentials: Option<String>,
}

pub struct TestV {
    pub name: Seq<char>,
    pub origin: Seq<char>,
    pub allow_origin: Option<Seq<char>>,
    pub allow_credentials: bool,
    pub reflects_origin: bool,
    pub verdict: Seq<char>,
    pub note: Seq<char>,
}

pub open spec fn test_v(t: CorsTest) -> TestV {
    TestV {
        name: t.name@,
        origin: t.origin@,
        allow_origin: ov(t.allow_origin),
        allow_credentials: t.allow_credentials,
        reflects_origin: t.reflects_origin,
        verdict: t.verdict@,
        note: t.note@,
    }
}

pub open spec fn tests_view(v: Seq<CorsTest>) -> Seq<TestV> {
    v.map_values(|t: CorsTest| test_v(t))
}

/// The rated test for one answer to the probe `(name, origin)`.
pub open spec fn test_spec(name: Seq<char>, origin: Seq<char>, a: CorsAnswer) -> TestV {
    let creds = match a.allow_credentials {
        Some(c) => eq_ignore_ascii_case(c@, "true"@),
        None => false,
    };
    let reflects = match a.allow_origin {
        Some(ao) => trim(ao@) == origin || trim(ao@) == "*"@,
        None => false,
    };
    let v = verdict_spec(ov(a.allow_origin), creds, reflects, origin);
    TestV {
        name,
        origin,
        allow_origin: ov(a.allow_origin),
        allow_credentials: creds,
        reflects_origin: reflects,
        verdict: v.0,
        note: v.1,
    }
}

fn opt_clone(o: &Option<String>) -> (r: Option<String>)
    ensures
        ov(r) == ov(*o),
{
    match o {
        Some(s) => Some(s.clone()),
        None => None,
    }
}

/// Rates one answer.
pub fn run_test(name: &str, origin: &str, a: &CorsAnswer) -> (t: CorsTest)
    ensures
        test_v(t) == test_spec(name@, origin@, *a),
{
    let credentials = match &a.allow_credentials {
        Some(c) => str_eq_ignore_ascii_case(c.as_str(), "true"),
        None => false,
    };
    let reflects = match &a.allow_origin {
        Some(ao) => {
            let t = crate::text::trim_str(ao.as_str());
            str_eq(t.as_str(), origin) || str_eq(t.as_str(), "*")
        },
        None => false,
    };
    let ao_ref: Option<&str> = match &a.allow_origin {
        Some(s) => Some(s.as_str()),
        None => None,
    };
    let (v, note) = verdict(ao_ref, credentials, reflects, origin);
    CorsTest {
        name: lit(name),
        origin: lit(origin),
        allow_origin: opt_clone(&a.allow_origin),
        allow_credentials: credentials,
        reflects_origin: reflects,
        verdict: v,
        note,
    }
}

/// Outcome of one probe: its answer or the request error's text.
pub type ProbeResult = Result<CorsAnswer, String>;

pub open spec fn collect_tests(cases: Seq<(Seq<char>, Seq<char>)>, rs: Seq<Result<CorsAnswer, String>>) -> Seq<TestV>
    decreases rs.len(),
{
    if rs.len() == 0 {
        seq![]
    } else {
        let prev = collect_tests(cases, rs.drop_last());
        let k = rs.len() - 1;
        match rs.last() {
            Ok(a) => prev.push(test_spec(cases[k].0, cases[k].1, a)),
            Err(_) => prev,
        }
    }
}

/// The last failed probe's message, `name: request failed: error`.
pub open spec fn last_error(cases: Seq<(Seq<char>, Seq<char>)>, rs: Seq<Result<CorsAnswer, String>>) -> Option<Seq<char>>
    decreases rs.len(),
{
    if rs.len() == 0 {
        None
    } else {
        match rs.last() {
            Err(e) => Some(cases[rs.len() - 1].0 + ": request failed: "@ + e@),
            Ok(_) => last_error(cases, rs.drop_last()),
        }
    }
}

pub open spec fn any_verdict(ts: Seq<TestV>, v: Seq<char>) -> bool {
    exists|i: int| 0 <= i < ts.len() && (#[trigger] ts[i]).verdict == v
}

/// Builds the check's answer from one result per probe of `origin_cases`.
pub fn cors_report(target: &str, results: &Vec<Result<CorsAnswer, String>>, duration_ms: u64) -> (r:
    CorsResponse)
    requires
        results@.len() == 6,
    ensures
        r.url@ == target@,
        r.installed,
        r.duration_ms == duration_ms,
        r.command@ == "builtin (native HTTP, 6 origin probes)"@,
        tests_view(r.tests@) == collect_tests(cases_spec(host_spec(target@)), results@),
        ov(r.error) == last_error(cases_spec(host_spec(target@)), results@),
        r.high_risk == (any_verdict(tests_view(r.tests@), "critical"@) || any_verdict(
            tests_view(r.tests@),
            "high"@,
        )),
        r.medium_risk == (!r.high_risk && any_verdict(tests_view(r.tests@), "medium"@)),
{
    let cases = origin_cases(target);
    let ghost cv = pairs_view(cases@);
    assert(cv.len() == 6);
    assert(cases@.len() == cv.len());
    let mut tests: Vec<CorsTest> = Vec::new();
    let mut error: Option<String> = None;
    let mut k: usize = 0;
    assert(tests_view(tests@) =~= collect_tests(cv, results@.take(0)));
    while k < 6
        invariant
            k <= 6,
            results@.len() == 6,
            cases@.len() == 6,
            cv == pairs_view(cases@),
            tests_view(tests@) == collect_tests(cv, results@.take(k as int)),
            ov(error) == last_error(cv, results@.take(k as int)),
        decreases 6 - k,
    {
        assert(results@.take(k + 1).drop_last() =~= results@.take(k as int));
        assert(results@.take(k + 1).last() == results@[k as int]);
        assert(cv[k as int] == (cases@[k as int].0@, cases@[k as int].1@));
        let (name, origin) = &cases[k];
        match &results[k] {
            Ok(a) => {
                let t = run_test(name.as_str(), origin.as_str(), a);
                let ghost prev = tests_view(tests@);
                tests.push(t);
                assert(tests_view(tests@) =~= prev.push(test_v(t)));
            },
            Err(e) => {
                let mut m = chars_of(name.as_str());
                push_str(&mut m, ": request failed: ");
                push_all(&mut m, chars_of(e.as_str()).as_slice());
                error = Some(string_of(m.as_slice()));
            },
        }
        k = k + 1;
    }
    assert(results@.take(6) =~= results@);
    let ghost tv = tests_view(tests@);
    let mut crit_or_high = false;
    let mut medium = false;
    let mut i: usize = 0;
    while i < tests.len()
        invariant
            i <= tests@.len(),
            tv == tests_view(tests@),
            crit_or_high == (any_verdict(tv.take(i as int), "critical"@) || any_verdict(
                tv.take(i as int),
                "high"@,
            )),
            medium == any_verdict(tv.take(i as int), "medium"@),
        decreases tests@.len() - i,
    {
        let ghost t = tv.take(i as int);
        let ghost t2 = tv.take(i + 1);
        assert(t2 =~= t.push(tv[i as int]));
        let v = tests[i].verdict.as_str();
        let c = str_eq(v, "critical");
        let h = str_eq(v, "high");
        let m = str_eq(v, "medium");
        proof {
            assert forall|w: Seq<char>| any_verdict(t2, w) == (any_verdict(t, w) || t2[i as int].verdict
                == w) by {
                if any_verdict(t, w) {
                    let j = choose|j: int| 0 <= j < t.len() && t[j].verdict == w;
                    assert(t2[j] == t[j]);
                }
                if any_verdict(t2, w) {
                    let j = choose|j: int| 0 <= j < t2.len() && t2[j].verdict == w;
                    if j < i {
                        assert(t[j] == t2[j]);
                    }
                }
            }
        }
        crit_or_high = crit_or_high || c || h;
        medium = medium || m;
        i = i + 1;
    }
    assert(tv.take(tests@.len() as int) =~= tv);
    CorsResponse {
        url: lit(target),
        installed: true,
        tests,
        high_risk: crit_or_high,
        medium_risk: !crit_or_high && medium,
        error,
        duration_ms,
        command: lit("builtin (native HTTP, 6 origin probes)"),
    }
}

} // verus!
