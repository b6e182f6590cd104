use bugbounty_server::cors_check::{
    cors_report, extract_host, origin_cases, registrable_domain, run_test, verdict, CorsAnswer,
};
use bugbounty_server::open_redirect::{
    looks_offsite, probe_url, probe_urls, redirect_report, redirect_test, status_text,
    RedirectAnswer, PARAM_COUNT,
};

#[test]
fn host_and_domain_of_a_target() {
    assert_eq!(extract_host("https://www.example.com/path?x=1"), "www.example.com");
    assert_eq!(extract_host("example.com"), "");
    assert_eq!(registrable_domain("a.b.example.com"), "example.com");
    assert_eq!(registrable_domain("localhost"), "localhost");
}

#[test]
fn origins_derived_from_the_host() {
    let cases = origin_cases("https://www.example.com/app");
    let got: Vec<(&str, &str)> = cases.iter().map(|(a, b)| (a.as_str(), b.as_str())).collect();
    assert_eq!(
        got,
        vec![
            ("Arbitrary origin", "https://evil.com"),
            ("Null origin", "null"),
            ("Trusted subdomain", "https://example.com"),
            ("Prefix-match bypass", "https://example.com.evil.com"),
            ("Suffix-match bypass", "https://evilexample.com"),
            ("Scheme swap", "http://www.example.com"),
        ]
    );
    let plain = origin_cases("https://shop.example.org");
    assert_eq!(plain[2].1, "https://www.example.org");
}

#[test]
fn cors_verdicts() {
    assert_eq!(verdict(None, false, false, "x").0, "ok");
    assert_eq!(verdict(Some(" * "), false, true, "x").0, "low");
    assert_eq!(verdict(Some("*"), true, true, "x").0, "high");
    let (v, note) = verdict(Some("https://evil.com"), true, true, "https://evil.com");
    assert_eq!(v, "critical");
    assert_eq!(
        note,
        "Reflects origin `https://evil.com` AND allows credentials — attacker-controlled site can read authenticated responses."
    );
    assert_eq!(verdict(Some("https://evil.com"), false, true, "o").0, "medium");
    assert_eq!(verdict(Some("https://site.com"), true, false, "o").0, "low");
}

#[test]
fn cors_answer_rated() {
    let a = CorsAnswer {
        allow_origin: Some(" https://evil.com ".to_string()),
        allow_credentials: Some("TRUE".to_string()),
    };
    let t = run_test("Arbitrary origin", "https://evil.com", &a);
    assert!(t.reflects_origin);
    assert!(t.allow_credentials);
    assert_eq!(t.verdict, "critical");
    let none = CorsAnswer { allow_origin: None, allow_credentials: None };
    let t2 = run_test("Null origin", "null", &none);
    assert_eq!(t2.verdict, "ok");
    assert!(!t2.reflects_origin);
}

#[test]
fn cors_report_risks_and_last_error() {
    let crit = CorsAnswer {
        allow_origin: Some("https://evil.com".into()),
        allow_credentials: Some("true".into()),
    };
    let mut results: Vec<Result<CorsAnswer, String>> = vec![Ok(crit)];
    for _ in 0..4 {
        results.push(Ok(CorsAnswer { allow_origin: None, allow_credentials: None }));
    }
    results.push(Err("boom".to_string()));
    let r = cors_report("https://example.com", &results, 7);
    assert!(r.high_risk);
    assert!(!r.medium_risk);
    assert_eq!(r.tests.len(), 5);
    assert_eq!(r.error.as_deref(), Some("Scheme swap: request failed: boom"));
    assert_eq!(r.command, "builtin (native HTTP, 6 origin probes)");
    assert_eq!(r.duration_ms, 7);

    let med: Vec<Result<CorsAnswer, String>> = (0..6)
        .map(|_| {
            Ok(CorsAnswer { allow_origin: Some("*".into()), allow_credentials: None })
        })
        .collect();
    let r2 = cors_report("https://example.com", &med, 0);
    assert!(!r2.high_risk);
    assert!(!r2.medium_risk);
    assert!(r2.tests.iter().all(|t| t.verdict == "low" && t.reflects_origin));
}

#[test]
fn offsite_locations() {
    assert!(looks_offsite("  //evil.example/x "));
    assert!(looks_offsite("https://evil.example"));
    assert!(!looks_offsite("https://ok.example.com/evil"));
}

#[test]
fn probe_urls_join_the_query() {
    assert_eq!(probe_url("https://a.com", "next"), "https://a.com?next=//evil.example");
    assert_eq!(probe_url("https://a.com?x=1", "to"), "https://a.com?x=1&to=//evil.example");
    let all = probe_urls("https://a.com");
    assert_eq!(all.len(), PARAM_COUNT);
    assert_eq!(all[0], "https://a.com?url=//evil.example");
    assert_eq!(all[17], "https://a.com?r=//evil.example");
}

#[test]
fn status_reason_phrases() {
    assert_eq!(status_text(302), "302 Found");
    assert_eq!(status_text(200), "200 OK");
    assert_eq!(status_text(599), "599 <unknown status code>");
}

#[test]
fn redirect_probe_rated() {
    let v = redirect_test(
        "url",
        "u",
        &Ok(RedirectAnswer { status: 302, location: Some("//evil.example/x".into()) }),
    );
    assert!(v.vulnerable);
    assert_eq!(v.note, "Redirects to attacker-controlled host");
    let s = redirect_test("url", "u", &Ok(RedirectAnswer { status: 301, location: Some("/home".into()) }));
    assert!(!s.vulnerable);
    assert_eq!(s.note, "Redirects (301 Moved Permanently) but Location stays on-site or is filtered");
    let ok = redirect_test("url", "u", &Ok(RedirectAnswer { status: 200, location: None }));
    assert_eq!(ok.note, "HTTP 200 OK — no off-site redirect");
    assert_eq!(ok.status, Some(200));
    let f = redirect_test("url", "u", &Err("x".into()));
    assert_eq!(f.note, "Request failed");
    assert_eq!(f.status, None);
}

#[test]
fn redirect_report_flags_any_vulnerable() {
    let mut replies: Vec<Result<RedirectAnswer, String>> = Vec::new();
    for k in 0..PARAM_COUNT {
        if k == 3 {
            replies.push(Ok(RedirectAnswer { status: 307, location: Some("https://evil.example".into()) }));
        } else if k == PARAM_COUNT - 1 {
            replies.push(Err("timeout".into()));
        } else {
            replies.push(Ok(RedirectAnswer { status: 200, location: None }));
        }
    }
    let r = redirect_report("https://a.com", &replies, 9);
    assert!(r.vulnerable);
    assert_eq!(r.tests.len(), PARAM_COUNT);
    assert_eq!(r.tests[3].param, "return");
    assert_eq!(r.error.as_deref(), Some("r: timeout"));
    assert_eq!(r.command, "builtin (native HTTP, 18 redirect params probed)");
}
