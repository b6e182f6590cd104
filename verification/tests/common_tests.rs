use bugbounty_server::common::{normalize_domain, normalize_url, resolve_scan_path, safe_prefix, truncate_output};
use bugbounty_server::component_intel::version_cmp;
use bugbounty_server::wordpress_vuln_scan::{version_in_range, VersionRange};

#[test]
fn normalize_url_adds_https_and_strips_slash() {
    assert_eq!(normalize_url("example.com/").unwrap(), "https://example.com");
    assert_eq!(
        normalize_url("http://example.com/path").unwrap(),
        "http://example.com/path"
    );
}

#[test]
fn normalize_url_rejects_shell_metacharacters() {
    assert!(normalize_url("http://x.com;rm -rf /").is_err());
    assert!(normalize_url("").is_err());
}

#[test]
fn normalize_domain_strips_scheme_and_path() {
    assert_eq!(
        normalize_domain("https://Sub.Example.com/path").unwrap(),
        "sub.example.com"
    );
    assert!(normalize_domain("localhost").is_err());
    assert!(normalize_domain("evil.com|x").is_err());
}

#[test]
fn safe_prefix_respects_utf8() {
    let s = "héllo world";
    let p = safe_prefix(s, 3);
    assert_eq!(p, "hél");
    assert!(s.starts_with(p));
}

#[test]
fn compare_versions() {
    assert_eq!(version_cmp("1.2", "1.2.0"), Some(std::cmp::Ordering::Equal));
    assert_eq!(version_cmp("1.2.3", "1.2.4"), Some(std::cmp::Ordering::Less));
    assert_eq!(version_cmp("2.0", "1.9.9"), Some(std::cmp::Ordering::Greater));
    assert_eq!(version_cmp("v1.2.3", "1.2.3"), Some(std::cmp::Ordering::Equal));
    assert_eq!(version_cmp("1.2.3-beta", "1.2.3"), Some(std::cmp::Ordering::Equal));
    assert_eq!(version_cmp("", "1.0"), None);
    assert_eq!(version_cmp("1.0", "*"), None);
}

#[test]
fn range_inclusive() {
    let r = VersionRange {
        from: "*".into(),
        from_inclusive: true,
        to: "1.37".into(),
        to_inclusive: true,
    };
    assert!(version_in_range("1.37", &r));
    assert!(version_in_range("1.0", &r));
    assert!(!version_in_range("1.38", &r));
}

#[test]
fn normalize_url_keeps_https_and_trims() {
    assert_eq!(normalize_url("  https://a.b/x/// ").unwrap(), "https://a.b/x");
    assert_eq!(normalize_url("   ").unwrap_err(), "URL is empty");
    assert_eq!(
        normalize_url("https://a.b/$(id)").unwrap_err(),
        "URL contains invalid characters"
    );
    let long = format!("https://a.b/{}", "x".repeat(2100));
    assert_eq!(normalize_url(&long).unwrap_err(), "URL too long");
}

#[test]
fn truncate_output_cuts_on_chars() {
    assert_eq!(truncate_output("héllo", 2), "hé\n\n… truncated (2 chars max)");
    assert_eq!(truncate_output("ab", 3), "ab");
}

#[test]
fn resolve_scan_path_joins_and_validates() {
    assert_eq!(resolve_scan_path("/repo", " sub/dir ").unwrap(), "/repo/sub/dir");
    assert_eq!(resolve_scan_path("/repo/", "x").unwrap(), "/repo/x");
    assert_eq!(resolve_scan_path("/repo", "/abs/p").unwrap(), "/abs/p");
    assert_eq!(resolve_scan_path("/repo", "   ").unwrap_err(), "Path is empty");
    assert_eq!(
        resolve_scan_path("/repo", "a;b").unwrap_err(),
        "Path contains invalid characters"
    );
    assert_eq!(resolve_scan_path("/repo", "..").unwrap_err(), "Path escapes the repository");
    assert_eq!(resolve_scan_path("/repo", "a/../../etc").unwrap_err(), "Path escapes the repository");
    assert_eq!(resolve_scan_path("/repo", "a/..b/c").unwrap(), "/repo/a/..b/c");
    assert_eq!(resolve_scan_path("/repo", "/x/../y").unwrap(), "/x/../y");
}

#[test]
fn normalized_urls_stay_normalized() {
    for raw in ["a.com/", "  http://b.com//x/ ", "https://c.com", "d.com/path?q=1"] {
        let once = normalize_url(raw).unwrap();
        assert_eq!(normalize_url(&once).unwrap(), once);
    }
    assert_eq!(normalize_url("a.com/").unwrap(), "https://a.com");
    // A target of slashes only loses the scheme's slashes, so a second pass differs.
    assert_eq!(normalize_url("https://").unwrap(), "https:");
    assert_eq!(normalize_url("https:").unwrap(), "https://https:");
}

#[test]
fn ascii_domains_come_out_lowercase_hosts() {
    for raw in ["  Shop.EXAMPLE.com/path ", "https://A.B.:8080", "http://x.Y?q=1", "a.b..."] {
        let h = normalize_domain(raw).unwrap();
        assert!(h.contains('.') && !h.ends_with('.'));
        assert!(h.chars().all(|c| c.is_ascii() && !c.is_ascii_uppercase() && !"/:? ".contains(c)));
    }
    assert_eq!(normalize_domain("  Shop.EXAMPLE.com/path ").unwrap(), "shop.example.com");
    assert_eq!(normalize_domain("a.b...").unwrap(), "a.b");
}
