//! Security headers & cookies: grades the hardening headers of one HTTP
//! response and the flags of each `Set-Cookie`, and rolls them up into an
//! overall rating. The response itself is fetched by the caller and handed
//! in as plain header fields.

use vstd::prelude::*;

use crate::text::ov;

use crate::common::{safe_prefix, spec_safe_prefix};
use crate::text::{
    chars_of, contains, contains_chars, decimal, decimal_chars, eq_ignore_ascii_case, join, lit,
    lower_chars, parse_unsigned, parse_unsigned_spec, push_all, push_str, seqs_view, split_char,
    split_chars, starts_with, str_eq, str_to_lowercase, string_of, strip_prefix,
    strip_prefix_chars, trim, trim_chars,
};

verus! {

/// One response header: its (lower-case) name and its value, `None` when
/// the value is not visible ASCII text.
pub struct HeaderField {
    pub name: String,
    pub value: Option<String>,
}

pub struct HeaderCheck {
    pub name: String,
    pub present: bool,
    pub value: Option<String>,
    pub severity: String,
    pub note: String,
}

pub struct CookieCheck {
    pub name: String,
    pub raw: String,
    pub secure: bool,
    pub http_only: bool,
    pub same_site: Option<String>,
    pub severity: String,
    pub note: String,
}

pub struct SecurityHeadersResponse {
    pub url: String,
    pub installed: bool,
    pub status: Option<u16>,
    pub final_url: Option<String>,
    pub headers: Vec<HeaderCheck>,
    pub cookies: Vec<CookieCheck>,
    pub missing_count: usize,
    pub weak_cookie_count: usize,
    pub overall: String,
    pub error: Option<String>,
    pub duration_ms: u64,
    pub command: String,
}

/// A header check as plain values.
pub struct CheckV {
    pub name: Seq<char>,
    pub present: bool,
    pub value: Option<Seq<char>>,
    pub severity: Seq<char>,
    pub note: Seq<char>,
}

pub open spec fn check_view(c: HeaderCheck) -> CheckV {
    CheckV {
        name: c.name@,
        present: c.present,
        value: ov(c.value),
        severity: c.severity@,
        note: c.note@,
    }
}

pub open spec fn checks_view(v: Seq<HeaderCheck>) -> Seq<CheckV> {
    v.map_values(|c: HeaderCheck| check_view(c))
}

/// Value of the first field with the given name.
pub open spec fn header_get(hs: Seq<HeaderField>, key: Seq<char>) -> Option<Seq<char>>
    decreases hs.len(),
{
    if hs.len() == 0 {
        None
    } else if hs[0].name@ == key {
        ov(hs[0].value)
    } else {
        header_get(hs.drop_first(), key)
    }
}

fn opt_clone(o: &Option<String>) -> (r: Option<String>)
    ensures
        ov(r) == ov(*o),
{
    match o {
        Some(s) => Some(s.clone()),
        None => None,
    }
}

pub fn header_value(hs: &Vec<HeaderField>, key: &str) -> (r: Option<String>)
    ensures
        ov(r) == header_get(hs@, key@),
{
    let mut i: usize = 0;
    assert(hs@.skip(0) =~= hs@);
    while i < hs.len()
        invariant
            i <= hs@.len(),
            header_get(hs@, key@) == header_get(hs@.skip(i as int), key@),
        decreases hs@.len() - i,
    {
        assert(hs@.skip(i as int).drop_first() =~= hs@.skip(i + 1));
        assert(hs@.skip(i as int)[0] == hs@[i as int]);
        if str_eq(hs[i].name.as_str(), key) {
            return opt_clone(&hs[i].value);
        }
        i = i + 1;
    }
    assert(hs@.skip(i as int).len() == 0);
    None
}

/// The checked headers: (lower-case name, display name, severity when
/// missing, guidance when missing).
pub open spec fn sec_row(k: int) -> (Seq<char>, Seq<char>, Seq<char>, Seq<char>) {
    if k == 0 {
        (
            "strict-transport-security"@,
            "Strict-Transport-Security"@,
            "medium"@,
            "Missing HSTS — browsers may allow SSL stripping / downgrade on first visit."@,
        )
    } else if k == 1 {
        (
            "content-security-policy"@,
            "Content-Security-Policy"@,
            "medium"@,
            "Missing CSP — weaker XSS mitigation; consider a baseline policy."@,
        )
    } else if k == 2 {
        (
            "x-content-type-options"@,
            "X-Content-Type-Options"@,
            "medium"@,
            "Missing X-Content-Type-Options — set to nosniff to block MIME sniffing."@,
        )
    } else if k == 3 {
        (
            "x-frame-options"@,
            "X-Frame-Options"@,
            "low"@,
            "Missing X-Frame-Options (and no frame-ancestors in CSP) — clickjacking risk."@,
        )
    } else if k == 4 {
        (
            "referrer-policy"@,
            "Referrer-Policy"@,
            "low"@,
            "Missing Referrer-Policy — full URLs may leak to third parties via Referer."@,
        )
    } else if k == 5 {
        (
            "permissions-policy"@,
            "Permissions-Policy"@,
            "low"@,
            "Missing Permissions-Policy — browser features (camera, geolocation, …) not restricted."@,
        )
    } else if k == 6 {
        (
            "cross-origin-opener-policy"@,
            "Cross-Origin-Opener-Policy"@,
            "info"@,
            "Missing COOP — optional isolation header for XS-Leak / Spectre hardening."@,
        )
    } else {
        (
            "cross-origin-resource-policy"@,
            "Cross-Origin-Resource-Policy"@,
            "info"@,
            "Missing CORP — optional resource isolation header."@,
        )
    }
}

fn sec_row_exec(k: usize) -> (r: (&'static str, &'static str, &'static str, &'static str))
    requires
        k < 8,
    ensures
        (r.0@, r.1@, r.2@, r.3@) == sec_row(k as int),
{
    if k == 0 {
        (
            "strict-transport-security",
            "Strict-Transport-Security",
            "medium",
            "Missing HSTS — browsers may allow SSL stripping / downgrade on first visit.",
        )
    } else if k == 1 {
        (
            "content-security-policy",
            "Content-Security-Policy",
            "medium",
            "Missing CSP — weaker XSS mitigation; consider a baseline policy.",
        )
    } else if k == 2 {
        (
            "x-content-type-options",
            "X-Content-Type-Options",
            "medium",
            "Missing X-Content-Type-Options — set to nosniff to block MIME sniffing.",
        )
    } else if k == 3 {
        (
            "x-frame-options",
            "X-Frame-Options",
            "low",
            "Missing X-Frame-Options (and no frame-ancestors in CSP) — clickjacking risk.",
        )
    } else if k == 4 {
        (
            "referrer-policy",
            "Referrer-Policy",
            "low",
            "Missing Referrer-Policy — full URLs may leak to third parties via Referer.",
        )
    } else if k == 5 {
        (
            "permissions-policy",
            "Permissions-Policy",
            "low",
            "Missing Permissions-Policy — browser features (camera, geolocation, …) not restricted.",
        )
    } else if k == 6 {
        (
            "cross-origin-opener-policy",
            "Cross-Origin-Opener-Policy",
            "info",
            "Missing COOP — optional isolation header for XS-Leak / Spectre hardening.",
        )
    } else {
        (
            "cross-origin-resource-policy",
            "Cross-Origin-Resource-Policy",
            "info",
            "Missing CORP — optional resource isolation header.",
        )
    }
}

// ─── Grading a present header ───────────────────────────────────────────────

/// The first `max-age=N` directive whose number parses, scanning the
/// `;`-separated directives in order.
pub open spec fn max_age_of(parts: Seq<Seq<char>>) -> Option<nat>
    decreases parts.len(),
{
    if parts.len() == 0 {
        None
    } else {
        match strip_prefix(trim(parts[0]), "max-age="@) {
            Some(n) => match parse_unsigned_spec(trim(n), u64::MAX as nat) {
                Some(x) => Some(x),
                None => max_age_of(parts.drop_first()),
            },
            None => max_age_of(parts.drop_first()),
        }
    }
}

pub open spec fn hsts_grade(lower: Seq<char>) -> (Seq<char>, Seq<char>) {
    if !contains(lower, "max-age="@) {
        ("low"@, "HSTS present but max-age is missing or unreadable."@)
    } else {
        let m: nat = match max_age_of(split_char(lower, ';')) {
            Some(x) => x,
            None => 0,
        };
        if m < 15552000 {
            (
                "low"@,
                "HSTS max-age="@ + decimal(m) + " is short; consider ≥15552000 (180 days)."@,
            )
        } else {
            ("info"@, "HSTS present (max-age="@ + decimal(m) + ")."@)
        }
    }
}

/// Severity and note for a header that is present with `value`.
pub open spec fn assess_spec(key: Seq<char>, value: Seq<char>) -> (Seq<char>, Seq<char>) {
    let lower = str_to_lowercase(value);
    if key == "strict-transport-security"@ {
        hsts_grade(lower)
    } else if key == "x-content-type-options"@ {
        if trim(lower) == "nosniff"@ {
            ("info"@, "nosniff set."@)
        } else {
            ("low"@, "Unexpected value `"@ + value + "` — expected nosniff."@)
        }
    } else if key == "x-frame-options"@ {
        let v = trim(lower);
        if v == "deny"@ || v == "sameorigin"@ || starts_with(v, "allow-from"@) {
            ("info"@, "Set to "@ + value + "."@)
        } else {
            ("low"@, "Unusual X-Frame-Options value: "@ + value)
        }
    } else if key == "content-security-policy"@ {
        if contains(lower, "unsafe-inline"@) || contains(lower, "unsafe-eval"@) {
            ("low"@, "CSP present but allows unsafe-inline and/or unsafe-eval."@)
        } else {
            ("info"@, "CSP present."@)
        }
    } else {
        ("info"@, "Present: "@ + spec_safe_prefix(value, 80))
    }
}

fn eq_lit(v: &[char], s: &str) -> (b: bool)
    ensures
        b == (v@ == s@),
{
    let w = chars_of(s);
    crate::text::chars_eq(v, w.as_slice())
}

fn has_lit(v: &[char], s: &str) -> (b: bool)
    ensures
        b == contains(v@, s@),
{
    let w = chars_of(s);
    contains_chars(v, w.as_slice())
}

fn max_age_exec(parts: &Vec<Vec<char>>) -> (r: Option<u64>)
    ensures
        match r {
            Some(x) => max_age_of(seqs_view(parts@)) == Some(x as nat),
            None => max_age_of(seqs_view(parts@)) is None,
        },
{
    let ghost all = seqs_view(parts@);
    let mut i: usize = 0;
    assert(all.skip(0) =~= all);
    while i < parts.len()
        invariant
            i <= parts@.len(),
            all == seqs_view(parts@),
            max_age_of(all) == max_age_of(all.skip(i as int)),
        decreases parts@.len() - i,
    {
        assert(all.skip(i as int).drop_first() =~= all.skip(i + 1));
        assert(all.skip(i as int)[0] == parts@[i as int]@);
        let p = trim_chars(parts[i].as_slice());
        if let Some(n) = strip_prefix_chars(p.as_slice(), "max-age=") {
            let t = trim_chars(n.as_slice());
            if let Some(x) = parse_unsigned(t.as_slice(), u64::MAX) {
                return Some(x);
            }
        }
        i = i + 1;
    }
    assert(all.skip(i as int).len() == 0);
    None
}

fn hsts_exec(lower: &Vec<char>) -> (r: (&'static str, String))
    ensures
        (r.0@, r.1@) == hsts_grade(lower@),
{
    if !has_lit(lower.as_slice(), "max-age=") {
        return ("low", lit("HSTS present but max-age is missing or unreadable."));
    }
    let parts = split_chars(lower.as_slice(), ';');
    let m: u64 = match max_age_exec(&parts) {
        Some(x) => x,
        None => 0,
    };
    if m < 15552000 {
        let mut out = chars_of("HSTS max-age=");
        push_all(&mut out, decimal_chars(m).as_slice());
        push_str(&mut out, " is short; consider ≥15552000 (180 days).");
        ("low", string_of(out.as_slice()))
    } else {
        let mut out = chars_of("HSTS present (max-age=");
        push_all(&mut out, decimal_chars(m).as_slice());
        push_str(&mut out, ").");
        ("info", string_of(out.as_slice()))
    }
}

/// Grades a present header: HSTS by its max-age, nosniff, X-Frame-Options
/// values, CSP unsafe sources; any other header is informational.
pub fn assess_present_header(key: &str, value: &str) -> (r: (&'static str, String))
    ensures
        (r.0@, r.1@) == assess_spec(key@, value@),
{
    let vc = chars_of(value);
    let lower = lower_chars(vc.as_slice());
    if str_eq(key, "strict-transport-security") {
        hsts_exec(&lower)
    } else if str_eq(key, "x-content-type-options") {
        let t = trim_chars(lower.as_slice());
        if eq_lit(t.as_slice(), "nosniff") {
            ("info", lit("nosniff set."))
        } else {
            let mut out = chars_of("Unexpected value `");
            push_all(&mut out, vc.as_slice());
            push_str(&mut out, "` — expected nosniff.");
            ("low", string_of(out.as_slice()))
        }
    } else if str_eq(key, "x-frame-options") {
        let v = trim_chars(lower.as_slice());
        let allow = chars_of("allow-from");
        if eq_lit(v.as_slice(), "deny") || eq_lit(v.as_slice(), "sameorigin")
            || crate::text::has_prefix(v.as_slice(), allow.as_slice()) {
            let mut out = chars_of("Set to ");
            push_all(&mut out, vc.as_slice());
            push_str(&mut out, ".");
            ("info", string_of(out.as_slice()))
        } else {
            let mut out = chars_of("Unusual X-Frame-Options value: ");
            push_all(&mut out, vc.as_slice());
            ("low", string_of(out.as_slice()))
        }
    } else if str_eq(key, "content-security-policy") {
        if has_lit(lower.as_slice(), "unsafe-inline") || has_lit(lower.as_slice(), "unsafe-eval") {
            ("low", lit("CSP present but allows unsafe-inline and/or unsafe-eval."))
        } else {
            ("info", lit("CSP present."))
        }
    } else {
        let mut out = chars_of("Present: ");
        push_str(&mut out, safe_prefix(value, 80));
        ("info", string_of(out.as_slice()))
    }
}


// ─── Header checks ──────────────────────────────────────────────────────────

/// Whether the CSP carries a `frame-ancestors` directive (case-insensitive).
pub open spec fn has_frame_ancestors(hs: Seq<HeaderField>) -> bool {
    match header_get(hs, "content-security-policy"@) {
        Some(c) => contains(str_to_lowercase(c), "frame-ancestors"@),
        None => false,
    }
}

/// The check for row `k` of the table.
pub open spec fn check_of(hs: Seq<HeaderField>, is_https: bool, k: int) -> CheckV {
    let row = sec_row(k);
    let key = row.0;
    let display = row.1;
    let value = header_get(hs, key);
    let present = value is Some;
    if key == "x-frame-options"@ && !present && has_frame_ancestors(hs) {
        CheckV {
            name: display,
            present: false,
            value: None,
            severity: "info"@,
            note: "X-Frame-Options missing, but CSP frame-ancestors is present."@,
        }
    } else if key == "strict-transport-security"@ && !is_https {
        CheckV {
            name: display,
            present,
            value: match value {
                Some(v) => Some(spec_safe_prefix(v, 200)),
                None => None,
            },
            severity: "info"@,
            note: if present {
                "HSTS present (target is not HTTPS in this probe — unusual)."@
            } else {
                "HSTS not checked as a hard fail on plain HTTP targets."@
            },
        }
    } else {
        match value {
            Some(v) => CheckV {
                name: display,
                present: true,
                value: Some(spec_safe_prefix(v, 200)),
                severity: assess_spec(key, v).0,
                note: assess_spec(key, v).1,
            },
            None => CheckV {
                name: display,
                present: false,
                value: None,
                severity: row.2,
                note: row.3,
            },
        }
    }
}

/// One check per table row, in table order.
pub open spec fn evaluate_spec(hs: Seq<HeaderField>, is_https: bool) -> Seq<CheckV> {
    Seq::new(8, |k: int| check_of(hs, is_https, k))
}

fn prefix_string(v: &str, max: usize) -> (r: String)
    ensures
        r@ == spec_safe_prefix(v@, max as nat),
{
    lit(safe_prefix(v, max))
}

fn check_exec(hs: &Vec<HeaderField>, is_https: bool, frame_ancestors: bool, k: usize) -> (c:
    HeaderCheck)
    requires
        k < 8,
        frame_ancestors == has_frame_ancestors(hs@),
    ensures
        check_view(c) == check_of(hs@, is_https, k as int),
{
    let (key, display, miss_sev, miss_note) = sec_row_exec(k);
    let value = header_value(hs, key);
    let present = value.is_some();
    if str_eq(key, "x-frame-options") && !present && frame_ancestors {
        return HeaderCheck {
            name: lit(display),
            present: false,
            value: None,
            severity: lit("info"),
            note: lit("X-Frame-Options missing, but CSP frame-ancestors is present."),
        };
    }
    if str_eq(key, "strict-transport-security") && !is_https {
        let shown = match &value {
            Some(v) => Some(prefix_string(v.as_str(), 200)),
            None => None,
        };
        return HeaderCheck {
            name: lit(display),
            present,
            value: shown,
            severity: lit("info"),
            note: if present {
                lit("HSTS present (target is not HTTPS in this probe — unusual).")
            } else {
                lit("HSTS not checked as a hard fail on plain HTTP targets.")
            },
        };
    }
    match value {
        Some(v) => {
            let (severity, note) = assess_present_header(key, v.as_str());
            HeaderCheck {
                name: lit(display),
                present: true,
                value: Some(prefix_string(v.as_str(), 200)),
                severity: lit(severity),
                note,
            }
        },
        None => HeaderCheck {
            name: lit(display),
            present: false,
            value: None,
            severity: lit(miss_sev),
            note: lit(miss_note),
        },
    }
}

/// Grades every hardening header of a response, in table order.
pub fn evaluate_headers(hs: &Vec<HeaderField>, is_https: bool) -> (r: Vec<HeaderCheck>)
    ensures
        checks_view(r@) == evaluate_spec(hs@, is_https),
{
    let frame_ancestors = match header_value(hs, "content-security-policy") {
        Some(c) => {
            let l = lower_chars(chars_of(c.as_str()).as_slice());
            has_lit(l.as_slice(), "frame-ancestors")
        },
        None => false,
    };
    let mut out: Vec<HeaderCheck> = Vec::new();
    let mut k: usize = 0;
    while k < 8
        invariant
            k <= 8,
            frame_ancestors == has_frame_ancestors(hs@),
            checks_view(out@) == evaluate_spec(hs@, is_https).take(k as int),
        decreases 8 - k,
    {
        let c = check_exec(hs, is_https, frame_ancestors, k);
        let ghost prev = checks_view(out@);
        out.push(c);
        assert(checks_view(out@) =~= prev.push(check_view(c)));
        assert(evaluate_spec(hs@, is_https).take(k + 1) =~= evaluate_spec(hs@, is_https).take(
            k as int,
        ).push(check_of(hs@, is_https, k as int)));
        k = k + 1;
    }
    assert(evaluate_spec(hs@, is_https).take(8) =~= evaluate_spec(hs@, is_https));
    out
}


// ─── Cookies ────────────────────────────────────────────────────────────────

pub struct CookieFlags {
    pub secure: bool,
    pub http_only: bool,
    pub same_site: Option<Seq<char>>,
}

/// Flags read from the attributes after `name=value`, left to right; the
/// last `SameSite` wins.
pub open spec fn cookie_flags(attrs: Seq<Seq<char>>) -> CookieFlags
    decreases attrs.len(),
{
    if attrs.len() == 0 {
        CookieFlags { secure: false, http_only: false, same_site: None }
    } else {
        let f = cookie_flags(attrs.drop_last());
        let lower = str_to_lowercase(trim(attrs.last()));
        if lower == "secure"@ {
            CookieFlags { secure: true, ..f }
        } else if lower == "httponly"@ {
            CookieFlags { http_only: true, ..f }
        } else {
            match strip_prefix(lower, "samesite="@) {
                Some(rest) => CookieFlags { same_site: Some(trim(rest)), ..f },
                None => f,
            }
        }
    }
}

/// A cookie check as plain values.
pub struct CookieV {
    pub name: Seq<char>,
    pub raw: Seq<char>,
    pub secure: bool,
    pub http_only: bool,
    pub same_site: Option<Seq<char>>,
    pub severity: Seq<char>,
    pub note: Seq<char>,
}

pub open spec fn cookie_view(c: CookieCheck) -> CookieV {
    CookieV {
        name: c.name@,
        raw: c.raw@,
        secure: c.secure,
        http_only: c.http_only,
        same_site: ov(c.same_site),
        severity: c.severity@,
        note: c.note@,
    }
}

pub open spec fn cookies_view(v: Seq<CookieCheck>) -> Seq<CookieV> {
    v.map_values(|c: CookieCheck| cookie_view(c))
}

pub open spec fn cookie_issues(f: CookieFlags, is_https: bool) -> Seq<Seq<char>> {
    (if is_https && !f.secure {
        seq!["missing Secure"@]
    } else {
        seq![]
    }) + (if !f.http_only {
        seq!["missing HttpOnly"@]
    } else {
        seq![]
    }) + match f.same_site {
        None => seq!["missing SameSite"@],
        Some(s) => if eq_ignore_ascii_case(s, "none"@) && !f.secure {
            seq!["SameSite=None without Secure"@]
        } else {
            seq![]
        },
    }
}

/// Medium for a missing Secure on HTTPS or SameSite=None without Secure;
/// low for a missing HttpOnly or SameSite; info otherwise.
pub open spec fn cookie_severity(f: CookieFlags, is_https: bool) -> Seq<char> {
    let none_insecure = match f.same_site {
        Some(s) => eq_ignore_ascii_case(s, "none"@) && !f.secure,
        None => false,
    };
    if (is_https && !f.secure) || none_insecure {
        "medium"@
    } else if !f.http_only || f.same_site is None {
        "low"@
    } else {
        "info"@
    }
}

pub open spec fn cookie_spec(raw: Seq<char>, is_https: bool) -> CookieV {
    let parts = split_char(raw, ';');
    let f = cookie_flags(parts.drop_first());
    let issues = cookie_issues(f, is_https);
    CookieV {
        name: trim(split_char(trim(parts[0]), '=')[0]),
        raw: spec_safe_prefix(raw, 240),
        secure: f.secure,
        http_only: f.http_only,
        same_site: f.same_site,
        severity: cookie_severity(f, is_https),
        note: if issues.len() == 0 {
            "Secure + HttpOnly + SameSite look good."@
        } else {
            "Weak flags: "@ + join(issues, ", "@) + "."@
        },
    }
}

/// One check per `set-cookie` field whose value is readable text, in order.
pub open spec fn cookies_spec(hs: Seq<HeaderField>, is_https: bool) -> Seq<CookieV>
    decreases hs.len(),
{
    if hs.len() == 0 {
        seq![]
    } else {
        let prev = cookies_spec(hs.drop_last(), is_https);
        let f = hs.last();
        if f.name@ == "set-cookie"@ {
            match f.value {
                Some(r) => prev.push(cookie_spec(r@, is_https)),
                None => prev,
            }
        } else {
            prev
        }
    }
}

fn flags_exec(parts: &Vec<Vec<char>>) -> (r: (bool, bool, Option<Vec<char>>))
    requires
        parts@.len() >= 1,
    ensures
        ({
            let f = cookie_flags(seqs_view(parts@).drop_first());
            &&& r.0 == f.secure
            &&& r.1 == f.http_only
            &&& match r.2 {
                Some(x) => f.same_site == Some(x@),
                None => f.same_site is None,
            }
        }),
{
    let ghost attrs = seqs_view(parts@).drop_first();
    let mut secure = false;
    let mut http_only = false;
    let mut same_site: Option<Vec<char>> = None;
    let mut i: usize = 1;
    while i < parts.len()
        invariant
            1 <= i <= parts@.len(),
            attrs == seqs_view(parts@).drop_first(),
            ({
                let f = cookie_flags(attrs.take(i - 1));
                &&& secure == f.secure
                &&& http_only == f.http_only
                &&& match same_site {
                    Some(x) => f.same_site == Some(x@),
                    None => f.same_site is None,
                }
            }),
        decreases parts@.len() - i,
    {
        assert(attrs.take(i as int).drop_last() =~= attrs.take(i - 1));
        assert(attrs.take(i as int).last() == parts@[i as int]@);
        let t = trim_chars(parts[i].as_slice());
        let lower = lower_chars(t.as_slice());
        if eq_lit(lower.as_slice(), "secure") {
            secure = true;
        } else if eq_lit(lower.as_slice(), "httponly") {
            http_only = true;
        } else if let Some(rest) = strip_prefix_chars(lower.as_slice(), "samesite=") {
            same_site = Some(trim_chars(rest.as_slice()));
        }
        i = i + 1;
    }
    assert(attrs.take(parts@.len() - 1) =~= attrs);
    (secure, http_only, same_site)
}

fn push_issue(issues: &mut Vec<Vec<char>>, s: &str)
    ensures
        seqs_view(final(issues)@) == seqs_view(old(issues)@).push(s@),
{
    issues.push(chars_of(s));
    assert(seqs_view(issues@) =~= seqs_view(old(issues)@).push(s@));
}

/// Reads one `Set-Cookie` value: the cookie name, its Secure / HttpOnly /
/// SameSite flags, and how weak they are.
pub fn cookie_check(raw: &str, is_https: bool) -> (c: CookieCheck)
    ensures
        cookie_view(c) == cookie_spec(raw@, is_https),
{
    let rv = chars_of(raw);
    let parts = split_chars(rv.as_slice(), ';');
    proof {
        crate::text::lemma_split_nonempty(rv@, ';');
    }
    let first = trim_chars(parts[0].as_slice());
    let pieces = split_chars(first.as_slice(), '=');
    proof {
        crate::text::lemma_split_nonempty(first@, '=');
    }
    let name = trim_chars(pieces[0].as_slice());
    let (secure, http_only, same_site) = flags_exec(&parts);
    let ghost f = cookie_flags(seqs_view(parts@).drop_first());
    let mut issues: Vec<Vec<char>> = Vec::new();
    let mut sev = "info";
    if is_https && !secure {
        push_issue(&mut issues, "missing Secure");
        sev = "medium";
    }
    if !http_only {
        push_issue(&mut issues, "missing HttpOnly");
        if str_eq(sev, "info") {
            sev = "low";
        }
    }
    match &same_site {
        None => {
            push_issue(&mut issues, "missing SameSite");
            if str_eq(sev, "info") {
                sev = "low";
            }
        },
        Some(s) => {
            let none = chars_of("none");
            if crate::text::chars_eq_ignore_ascii_case(s.as_slice(), none.as_slice()) && !secure {
                push_issue(&mut issues, "SameSite=None without Secure");
                sev = "medium";
            }
        },
    }
    assert(seqs_view(issues@) =~= cookie_issues(f, is_https));
    proof {
        reveal_strlit("info");
        reveal_strlit("low");
        reveal_strlit("medium");
        assert("info"@.len() == 4 && "low"@.len() == 3 && "medium"@.len() == 6);
    }
    let note = if issues.len() == 0 {
        lit("Secure + HttpOnly + SameSite look good.")
    } else {
        let mut out = chars_of("Weak flags: ");
        push_all(&mut out, crate::text::join_chars(&issues, ", ").as_slice());
        push_str(&mut out, ".");
        string_of(out.as_slice())
    };
    CookieCheck {
        name: string_of(name.as_slice()),
        raw: lit(safe_prefix(raw, 240)),
        secure,
        http_only,
        same_site: match same_site {
            Some(x) => Some(string_of(x.as_slice())),
            None => None,
        },
        severity: lit(sev),
        note,
    }
}

/// Checks every readable `Set-Cookie` value of the response, in order.
pub fn parse_cookies(hs: &Vec<HeaderField>, is_https: bool) -> (r: Vec<CookieCheck>)
    ensures
        cookies_view(r@) == cookies_spec(hs@, is_https),
{
    let mut out: Vec<CookieCheck> = Vec::new();
    let mut i: usize = 0;
    while i < hs.len()
        invariant
            i <= hs@.len(),
            cookies_view(out@) == cookies_spec(hs@.take(i as int), is_https),
        decreases hs@.len() - i,
    {
        assert(hs@.take(i + 1).drop_last() =~= hs@.take(i as int));
        if str_eq(hs[i].name.as_str(), "set-cookie") {
            if let Some(raw) = &hs[i].value {
                let c = cookie_check(raw.as_str(), is_https);
                let ghost prev = cookies_view(out@);
                out.push(c);
                assert(cookies_view(out@) =~= prev.push(cookie_view(c)));
            }
        }
        i = i + 1;
    }
    assert(hs@.take(hs@.len() as int) =~= hs@);
    out
}

// ─── Overall rating and report ─────────────────────────────────────────────

/// Rank of a check severity (anything unrecognised counts as info = 1).
pub open spec fn check_rank(s: Seq<char>) -> u8 {
    if s == "critical"@ {
        5
    } else if s == "high"@ {
        4
    } else if s == "medium"@ {
        3
    } else if s == "low"@ {
        2
    } else {
        1
    }
}

pub fn sev_rank(s: &str) -> (r: u8)
    ensures
        r == check_rank(s@),
{
    if str_eq(s, "critical") {
        5
    } else if str_eq(s, "high") {
        4
    } else if str_eq(s, "medium") {
        3
    } else if str_eq(s, "low") {
        2
    } else {
        1
    }
}

pub open spec fn max_check_rank(hs: Seq<CheckV>) -> u8
    decreases hs.len(),
{
    if hs.len() == 0 {
        0
    } else {
        let r = max_check_rank(hs.drop_last());
        let x = check_rank(hs.last().severity);
        if x > r {
            x
        } else {
            r
        }
    }
}

pub open spec fn max_cookie_rank(cs: Seq<CookieV>) -> u8
    decreases cs.len(),
{
    if cs.len() == 0 {
        0
    } else {
        let r = max_cookie_rank(cs.drop_last());
        let x = check_rank(cs.last().severity);
        if x > r {
            x
        } else {
            r
        }
    }
}

pub open spec fn rank_name(r: u8) -> Seq<char> {
    if r == 5 {
        "critical"@
    } else if r == 4 {
        "high"@
    } else if r == 3 {
        "medium"@
    } else if r == 2 {
        "low"@
    } else {
        "info"@
    }
}

/// The most severe rating among the header and cookie checks (`info` when
/// there are none).
pub open spec fn overall_spec(hs: Seq<CheckV>, cs: Seq<CookieV>) -> Seq<char> {
    let a = max_check_rank(hs);
    let b = max_cookie_rank(cs);
    rank_name(
        if a > b {
            a
        } else {
            b
        },
    )
}

pub fn overall_severity(headers: &[HeaderCheck], cookies: &[CookieCheck]) -> (r: String)
    ensures
        r@ == overall_spec(checks_view(headers@), cookies_view(cookies@)),
{
    let ghost hv = checks_view(headers@);
    let ghost cv = cookies_view(cookies@);
    let mut a: u8 = 0;
    let mut i: usize = 0;
    while i < headers.len()
        invariant
            i <= headers@.len(),
            hv == checks_view(headers@),
            a == max_check_rank(hv.take(i as int)),
        decreases headers@.len() - i,
    {
        assert(hv.take(i + 1).drop_last() =~= hv.take(i as int));
        let x = sev_rank(headers[i].severity.as_str());
        if x > a {
            a = x;
        }
        i = i + 1;
    }
    assert(hv.take(headers@.len() as int) =~= hv);
    let mut b: u8 = 0;
    let mut j: usize = 0;
    while j < cookies.len()
        invariant
            j <= cookies@.len(),
            cv == cookies_view(cookies@),
            b == max_cookie_rank(cv.take(j as int)),
        decreases cookies@.len() - j,
    {
        assert(cv.take(j + 1).drop_last() =~= cv.take(j as int));
        let x = sev_rank(cookies[j].severity.as_str());
        if x > b {
            b = x;
        }
        j = j + 1;
    }
    assert(cv.take(cookies@.len() as int) =~= cv);
    let rank = if a > b {
        a
    } else {
        b
    };
    let s = match rank {
        5 => "critical",
        4 => "high",
        3 => "medium",
        2 => "low",
        _ => "info",
    };
    lit(s)
}

/// Headers missing at a severity above info.
pub open spec fn missing_count_spec(hs: Seq<CheckV>) -> nat
    decreases hs.len(),
{
    if hs.len() == 0 {
        0
    } else {
        missing_count_spec(hs.drop_last()) + if !hs.last().present && hs.last().severity
            != "info"@ {
            1nat
        } else {
            0nat
        }
    }
}

/// Cookies rated above info.
pub open spec fn weak_count_spec(cs: Seq<CookieV>) -> nat
    decreases cs.len(),
{
    if cs.len() == 0 {
        0
    } else {
        weak_count_spec(cs.drop_last()) + if cs.last().severity != "info"@ {
            1nat
        } else {
            0nat
        }
    }
}

pub proof fn lemma_missing_bound(hs: Seq<CheckV>)
    ensures
        missing_count_spec(hs) <= hs.len(),
    decreases hs.len(),
{
    if hs.len() > 0 {
        lemma_missing_bound(hs.drop_last());
    }
}

pub proof fn lemma_weak_bound(cs: Seq<CookieV>)
    ensures
        weak_count_spec(cs) <= cs.len(),
    decreases cs.len(),
{
    if cs.len() > 0 {
        lemma_weak_bound(cs.drop_last());
    }
}

fn missing_count(headers: &Vec<HeaderCheck>) -> (n: usize)
    ensures
        n == missing_count_spec(checks_view(headers@)),
{
    let ghost hv = checks_view(headers@);
    let mut n: usize = 0;
    let mut i: usize = 0;
    while i < headers.len()
        invariant
            i <= headers@.len(),
            hv == checks_view(headers@),
            n == missing_count_spec(hv.take(i as int)),
        decreases headers@.len() - i,
    {
        assert(hv.take(i + 1).drop_last() =~= hv.take(i as int));
        proof {
            lemma_missing_bound(hv.take(i as int));
        }
        if !headers[i].present && !str_eq(headers[i].severity.as_str(), "info") {
            n = n + 1;
        }
        i = i + 1;
    }
    assert(hv.take(headers@.len() as int) =~= hv);
    n
}

fn weak_count(cookies: &Vec<CookieCheck>) -> (n: usize)
    ensures
        n == weak_count_spec(cookies_view(cookies@)),
{
    let ghost cv = cookies_view(cookies@);
    let mut n: usize = 0;
    let mut i: usize = 0;
    while i < cookies.len()
        invariant
            i <= cookies@.len(),
            cv == cookies_view(cookies@),
            n == weak_count_spec(cv.take(i as int)),
        decreases cookies@.len() - i,
    {
        assert(cv.take(i + 1).drop_last() =~= cv.take(i as int));
        proof {
            lemma_weak_bound(cv.take(i as int));
        }
        if !str_eq(cookies[i].severity.as_str(), "info") {
            n = n + 1;
        }
        i = i + 1;
    }
    assert(cv.take(cookies@.len() as int) =~= cv);
    n
}

/// A response that arrived: status, final URL after redirects, header fields.
pub struct Fetched {
    pub status: u16,
    pub final_url: String,
    pub fields: Vec<HeaderField>,
}

/// Builds the report for `target` from the probe's outcome (`Err` holds the
/// request error's text).
pub fn security_report(target: &str, outcome: Result<Fetched, String>, duration_ms: u64) -> (r:
    SecurityHeadersResponse)
    ensures
        r.url@ == target@,
        r.installed,
        r.duration_ms == duration_ms,
        r.command@ == "builtin (native HTTP header + Set-Cookie probe)"@,
        match outcome {
            Ok(f) => {
                &&& r.status == Some(f.status)
                &&& ov(r.final_url) == Some(f.final_url@)
                &&& r.error is None
                &&& checks_view(r.headers@) == evaluate_spec(
                    f.fields@,
                    starts_with(target@, "https://"@),
                )
                &&& cookies_view(r.cookies@) == cookies_spec(
                    f.fields@,
                    starts_with(target@, "https://"@),
                )
                &&& r.overall@ == overall_spec(checks_view(r.headers@), cookies_view(r.cookies@))
            },
            Err(e) => {
                &&& r.status is None
                &&& r.final_url is None
                &&& ov(r.error) == Some("Request failed: "@ + e@)
                &&& r.headers@.len() == 0
                &&& r.cookies@.len() == 0
                &&& r.overall@ == "error"@
            },
        },
        r.missing_count == missing_count_spec(checks_view(r.headers@)),
        r.weak_cookie_count == weak_count_spec(cookies_view(r.cookies@)),
{
    let tc = chars_of(target);
    let https = chars_of("https://");
    let is_https = crate::text::has_prefix(tc.as_slice(), https.as_slice());
    match outcome {
        Ok(f) => {
            let headers = evaluate_headers(&f.fields, is_https);
            let cookies = parse_cookies(&f.fields, is_https);
            let missing = missing_count(&headers);
            let weak = weak_count(&cookies);
            let overall = overall_severity(headers.as_slice(), cookies.as_slice());
            SecurityHeadersResponse {
                url: lit(target),
                installed: true,
                status: Some(f.status),
                final_url: Some(f.final_url),
                headers,
                cookies,
                missing_count: missing,
                weak_cookie_count: weak,
                overall,
                error: None,
                duration_ms,
                command: lit("builtin (native HTTP header + Set-Cookie probe)"),
            }
        },
        Err(e) => {
            let mut msg = chars_of("Request failed: ");
            push_all(&mut msg, chars_of(e.as_str()).as_slice());
            let headers: Vec<HeaderCheck> = Vec::new();
            let cookies: Vec<CookieCheck> = Vec::new();
            assert(checks_view(headers@) =~= Seq::<CheckV>::empty());
            assert(cookies_view(cookies@) =~= Seq::<CookieV>::empty());
            SecurityHeadersResponse {
                url: lit(target),
                installed: true,
                status: None,
                final_url: None,
                headers,
                cookies,
                missing_count: 0,
                weak_cookie_count: 0,
                overall: lit("error"),
                error: Some(string_of(msg.as_slice())),
                duration_ms,
                command: lit("builtin (native HTTP header + Set-Cookie probe)"),
            }
        },
    }
}

// ─── Laws ───────────────────────────────────────────────────────────────────

/// A missing X-Frame-Options is not held against a response whose CSP sets
/// `frame-ancestors`: that check is reported absent at info.
pub proof fn frame_ancestors_excuse_xfo(hs: Seq<HeaderField>, is_https: bool)
    requires
        header_get(hs, "x-frame-options"@) is None,
        has_frame_ancestors(hs),
    ensures
        evaluate_spec(hs, is_https).len() == 8,
        evaluate_spec(hs, is_https)[3].name == "X-Frame-Options"@,
        !evaluate_spec(hs, is_https)[3].present,
        evaluate_spec(hs, is_https)[3].severity == "info"@,
{
}

/// HSTS is only graded on HTTPS targets: over plain HTTP its check is info,
/// whether or not the header is there.
pub proof fn hsts_not_graded_over_http(hs: Seq<HeaderField>)
    ensures
        evaluate_spec(hs, false)[0].name == "Strict-Transport-Security"@,
        evaluate_spec(hs, false)[0].severity == "info"@,
        evaluate_spec(hs, false)[0].present == (header_get(hs, "strict-transport-security"@) is Some),
{
    reveal_strlit("x-frame-options");
    reveal_strlit("strict-transport-security");
    assert("x-frame-options"@.len() != "strict-transport-security"@.len());
}

pub proof fn lemma_max_check_rank(hs: Seq<CheckV>)
    ensures
        max_check_rank(hs) <= 5,
        forall|i: int|
            0 <= i < hs.len() ==> check_rank(#[trigger] hs[i].severity) <= max_check_rank(hs),
    decreases hs.len(),
{
    if hs.len() > 0 {
        lemma_max_check_rank(hs.drop_last());
        assert forall|i: int| 0 <= i < hs.len() implies check_rank(#[trigger] hs[i].severity)
            <= max_check_rank(hs) by {
            if i < hs.len() - 1 {
                assert(hs[i] == hs.drop_last()[i]);
            }
        }
    }
}

pub proof fn lemma_max_cookie_rank(cs: Seq<CookieV>)
    ensures
        max_cookie_rank(cs) <= 5,
        forall|i: int|
            0 <= i < cs.len() ==> check_rank(#[trigger] cs[i].severity) <= max_cookie_rank(cs),
    decreases cs.len(),
{
    if cs.len() > 0 {
        lemma_max_cookie_rank(cs.drop_last());
        assert forall|i: int| 0 <= i < cs.len() implies check_rank(#[trigger] cs[i].severity)
            <= max_cookie_rank(cs) by {
            if i < cs.len() - 1 {
                assert(cs[i] == cs.drop_last()[i]);
            }
        }
    }
}

/// The overall rating is at least as severe as every header and cookie check.
pub proof fn overall_dominates_checks(hs: Seq<CheckV>, cs: Seq<CookieV>)
    ensures
        forall|i: int|
            0 <= i < hs.len() ==> check_rank(#[trigger] hs[i].severity) <= check_rank(
                overall_spec(hs, cs),
            ),
        forall|i: int|
            0 <= i < cs.len() ==> check_rank(#[trigger] cs[i].severity) <= check_rank(
                overall_spec(hs, cs),
            ),
{
    lemma_max_check_rank(hs);
    lemma_max_cookie_rank(cs);
    reveal_strlit("critical");
    reveal_strlit("high");
    reveal_strlit("medium");
    reveal_strlit("low");
    reveal_strlit("info");
    assert("critical"@.len() == 8 && "high"@.len() == 4 && "medium"@.len() == 6);
    assert("low"@.len() == 3 && "info"@.len() == 4);
    assert("info"@[0] != "high"@[0]);
}

/// A cookie without `Secure` on an HTTPS target is rated medium; one with
/// Secure, HttpOnly and a SameSite other than None raises no issue.
pub proof fn cookie_rating(f: CookieFlags, is_https: bool)
    ensures
        (is_https && !f.secure) ==> cookie_severity(f, is_https) == "medium"@,
        (f.secure && f.http_only && f.same_site is Some) ==> cookie_issues(f, is_https).len()
            == 0 && cookie_severity(f, is_https) == "info"@,
        (cookie_issues(f, is_https).len() == 0) <==> (cookie_severity(f, is_https) == "info"@),
{
    reveal_strlit("medium");
    reveal_strlit("low");
    reveal_strlit("info");
    assert("medium"@.len() == 6 && "low"@.len() == 3 && "info"@.len() == 4);
}

/// A Content-Security-Policy that allows `unsafe-inline` or `unsafe-eval`
/// (in any letter case) is graded low with the note that says so; any other
/// present policy is graded info.
pub proof fn csp_unsafe_sources_graded_low(value: Seq<char>)
    ensures
        contains(str_to_lowercase(value), "unsafe-inline"@) ==> assess_spec(
            "content-security-policy"@,
            value,
        ) == ("low"@, "CSP present but allows unsafe-inline and/or unsafe-eval."@),
        contains(str_to_lowercase(value), "unsafe-eval"@) ==> assess_spec(
            "content-security-policy"@,
            value,
        ) == ("low"@, "CSP present but allows unsafe-inline and/or unsafe-eval."@),
        !contains(str_to_lowercase(value), "unsafe-inline"@) && !contains(
            str_to_lowercase(value),
            "unsafe-eval"@,
        ) ==> assess_spec("content-security-policy"@, value) == ("info"@, "CSP present."@),
{
    reveal_strlit("content-security-policy");
    reveal_strlit("strict-transport-security");
    reveal_strlit("x-content-type-options");
    reveal_strlit("x-frame-options");
    assert("content-security-policy"@[0] != "strict-transport-security"@[0]);
    assert("content-security-policy"@[0] != "x-content-type-options"@[0]);
    assert("content-security-policy"@[0] != "x-frame-options"@[0]);
}

/// How each present header is graded: HSTS is low unless a readable
/// `max-age` of at least 180 days (15552000 s) is set; X-Content-Type-Options
/// is low unless exactly `nosniff`; X-Frame-Options is low unless `DENY`,
/// `SAMEORIGIN` or `ALLOW-FROM …`; any other header present is info. (Values
/// are compared lower-cased and trimmed.)
pub proof fn present_header_grades(key: Seq<char>, value: Seq<char>)
    ensures
        key == "strict-transport-security"@ ==> (assess_spec(key, value).0 == "info"@ <==> (contains(
            str_to_lowercase(value),
            "max-age="@,
        ) && match max_age_of(split_char(str_to_lowercase(value), ';')) {
            Some(m) => m >= 15552000,
            None => false,
        })),
        key == "x-content-type-options"@ ==> (assess_spec(key, value).0 == "info"@ <==> trim(
            str_to_lowercase(value),
        ) == "nosniff"@),
        key == "x-frame-options"@ ==> (assess_spec(key, value).0 == "info"@ <==> (trim(
            str_to_lowercase(value),
        ) == "deny"@ || trim(str_to_lowercase(value)) == "sameorigin"@ || starts_with(
            trim(str_to_lowercase(value)),
            "allow-from"@,
        ))),
        key != "strict-transport-security"@ && key != "x-content-type-options"@ && key
            != "x-frame-options"@ && key != "content-security-policy"@ ==> assess_spec(key, value).0
            == "info"@,
        assess_spec(key, value).0 == "info"@ || assess_spec(key, value).0 == "low"@,
{
    reveal_strlit("info");
    reveal_strlit("low");
    reveal_strlit("strict-transport-security");
    reveal_strlit("x-content-type-options");
    reveal_strlit("x-frame-options");
    assert("info"@[0] != "low"@[0]);
    assert("x-content-type-options"@[0] != "strict-transport-security"@[0]);
    assert("x-frame-options"@[0] != "strict-transport-security"@[0]);
    assert("x-frame-options"@[2] != "x-content-type-options"@[2]);
}

} // verus!
