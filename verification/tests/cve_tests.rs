use bugbounty_server::cve::{
    cache_is_fresh, cvss_v3_source, lookup_request, normalize_cve_id, nvd_date, nvd_http_error,
    pick_cwes, pick_description, pick_references, request_url, urlencode, LookupParams,
    LookupRequest, NvdRef, NvdText,
};

#[test]
fn cve_ids_checked() {
    assert_eq!(normalize_cve_id(" cve-2024-1234 "), Ok("CVE-2024-1234".to_string()));
    assert_eq!(normalize_cve_id("CVE-24-1"), Err("CVE year must be 4 digits".to_string()));
    assert_eq!(normalize_cve_id("CVE-2024-"), Err("CVE number must be digits".to_string()));
    assert_eq!(normalize_cve_id("CVE-2024-12a"), Err("CVE number must be digits".to_string()));
    assert_eq!(
        normalize_cve_id("XYZ-1"),
        Err("Expected format CVE-YYYY-NNNNN, e.g. CVE-2024-12345".to_string())
    );
    assert_eq!(
        normalize_cve_id("cve-2024-1234-x"),
        Err("Expected format CVE-YYYY-NNNNN, e.g. CVE-2024-12345".to_string())
    );
}

#[test]
fn lookup_requests_and_urls() {
    let exact = lookup_request(&LookupParams { cve: Some("cve-2021-44228".into()), q: Some("x".into()) }).unwrap();
    assert_eq!(
        request_url(&exact),
        "https://services.nvd.nist.gov/rest/json/cves/2.0?cveId=CVE-2021-44228"
    );
    let kw = lookup_request(&LookupParams { cve: None, q: Some(" sql injection ".into()) }).unwrap();
    assert!(matches!(&kw, LookupRequest::Keyword(k) if k == "sql injection"));
    assert_eq!(
        request_url(&kw),
        "https://services.nvd.nist.gov/rest/json/cves/2.0?keywordSearch=sql%20injection&resultsPerPage=10"
    );
    assert_eq!(lookup_request(&LookupParams { cve: None, q: Some("  ".into()) }).err().as_deref(), Some("Query is empty"));
    assert_eq!(
        lookup_request(&LookupParams { cve: None, q: None }).err().as_deref(),
        Some("Provide ?cve=CVE-… or ?q=keyword")
    );
    assert_eq!(urlencode("a b/ü~"), "a%20b%2F%C3%BC~");
    assert_eq!(nvd_http_error(404, &"x".repeat(250)), format!("NVD returned HTTP 404 Not Found: {}", "x".repeat(200)));
    assert!(cache_is_fresh(86400));
    assert!(!cache_is_fresh(86401));
}

#[test]
fn record_parts_kept() {
    let d = Some(vec![
        NvdText { lang: Some("es".into()), value: Some("hola".into()) },
        NvdText { lang: Some("en".into()), value: Some("  hello  ".into()) },
    ]);
    assert_eq!(pick_description(&d), "hello");
    let d2 = Some(vec![NvdText { lang: Some("fr".into()), value: Some("salut".into()) }]);
    assert_eq!(pick_description(&d2), "salut");
    assert_eq!(pick_description(&None), "");
    assert_eq!(pick_cwes(&Some(vec![Some("CWE-79".into()), None])), vec!["CWE-79".to_string()]);
    let refs = pick_references(&Some(vec![
        NvdRef { url: Some("https://a".into()), source: None, tags: Some(vec![Some("Patch".into()), None]) },
        NvdRef { url: None, source: Some("s".into()), tags: None },
    ]));
    assert_eq!(refs.len(), 1);
    assert_eq!(refs[0].source, "");
    assert_eq!(refs[0].tags, vec!["Patch".to_string()]);
    assert_eq!(cvss_v3_source(false, true, true), Some("3.1"));
    assert_eq!(cvss_v3_source(false, false, false), None);
}

#[test]
fn record_dates_are_rewritten_as_rfc3339() {
    assert_eq!(nvd_date(Some("2024-01-02T03:04:05Z")), Some("2024-01-02T03:04:05+00:00".to_string()));
    assert_eq!(nvd_date(Some("2024-01-02T03:04:05.250-05:00")), Some("2024-01-02T03:04:05.250-05:00".to_string()));
    assert_eq!(nvd_date(Some("2024-01-02T03:04:05.123")), None);
    assert_eq!(nvd_date(None), None);
}
