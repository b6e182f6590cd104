use bugbounty_server::security_headers::{
    assess_present_header, evaluate_headers, overall_severity, parse_cookies, security_report,
    Fetched, HeaderField,
};

fn fields(pairs: &[(&str, &str)]) -> Vec<HeaderField> {
    pairs
        .iter()
        .map(|(k, v)| HeaderField { name: k.to_string(), value: Some(v.to_string()) })
        .collect()
}

#[test]
fn missing_headers_flagged() {
    let m = fields(&[("server", "nginx")]);
    let checks = evaluate_headers(&m, true);
    let csp = checks.iter().find(|c| c.name == "Content-Security-Policy").unwrap();
    assert!(!csp.present);
    assert_eq!(csp.severity, "medium");
}

#[test]
fn frame_ancestors_excuses_xfo() {
    let m = fields(&[("content-security-policy", "default-src 'self'; frame-ancestors 'none'")]);
    let checks = evaluate_headers(&m, true);
    let xfo = checks.iter().find(|c| c.name == "X-Frame-Options").unwrap();
    assert!(!xfo.present);
    assert_eq!(xfo.severity, "info");
}

#[test]
fn cookie_flags_parsed() {
    let m = fields(&[("set-cookie", "sid=abc; Path=/; HttpOnly")]);
    let cookies = parse_cookies(&m, true);
    assert_eq!(cookies.len(), 1);
    assert!(!cookies[0].secure);
    assert!(cookies[0].http_only);
    assert_eq!(cookies[0].severity, "medium");
}

#[test]
fn hsts_max_age_graded() {
    let (s, n) = assess_present_header("strict-transport-security", "max-age=300; includeSubDomains");
    assert_eq!(s, "low");
    assert_eq!(n, "HSTS max-age=300 is short; consider ≥15552000 (180 days).");
    let (s, n) = assess_present_header("strict-transport-security", "Max-Age=31536000");
    assert_eq!(s, "info");
    assert_eq!(n, "HSTS present (max-age=31536000).");
    let (s, _) = assess_present_header("strict-transport-security", "includeSubDomains");
    assert_eq!(s, "low");
}

#[test]
fn other_headers_graded() {
    assert_eq!(assess_present_header("x-content-type-options", " NoSniff ").0, "info");
    assert_eq!(
        assess_present_header("x-content-type-options", "yes").1,
        "Unexpected value `yes` — expected nosniff."
    );
    assert_eq!(assess_present_header("x-frame-options", "ALLOW-FROM x").0, "info");
    assert_eq!(assess_present_header("x-frame-options", "bogus").0, "low");
    assert_eq!(assess_present_header("content-security-policy", "script-src 'unsafe-eval'").0, "low");
    assert_eq!(assess_present_header("referrer-policy", "no-referrer").1, "Present: no-referrer");
}

#[test]
fn hsts_not_graded_on_http() {
    let m = fields(&[]);
    let checks = evaluate_headers(&m, false);
    assert_eq!(checks.len(), 8);
    assert_eq!(checks[0].name, "Strict-Transport-Security");
    assert_eq!(checks[0].severity, "info");
}

#[test]
fn cookie_samesite_none_without_secure() {
    let m = fields(&[("set-cookie", "a=1; HttpOnly; SameSite=None")]);
    let c = &parse_cookies(&m, false)[0];
    assert_eq!(c.name, "a");
    assert_eq!(c.same_site.as_deref(), Some("none"));
    assert_eq!(c.severity, "medium");
    assert_eq!(c.note, "Weak flags: SameSite=None without Secure.");
    let good = fields(&[("set-cookie", "b=2; Secure; HttpOnly; SameSite=Lax")]);
    let g = &parse_cookies(&good, true)[0];
    assert_eq!(g.severity, "info");
    assert_eq!(g.note, "Secure + HttpOnly + SameSite look good.");
}

#[test]
fn report_counts_and_overall() {
    let r = security_report(
        "https://x.test",
        Ok(Fetched { status: 200, final_url: "https://x.test/".into(), fields: fields(&[("set-cookie", "s=1")]) }),
        5,
    );
    assert_eq!(r.missing_count, 6);
    assert_eq!(r.weak_cookie_count, 1);
    assert_eq!(r.overall, "medium");
    assert_eq!(overall_severity(&r.headers, &r.cookies), "medium");
    let e = security_report("https://x.test", Err("timeout".into()), 1);
    assert_eq!(e.overall, "error");
    assert_eq!(e.error.as_deref(), Some("Request failed: timeout"));
}
