use bugbounty_server::vuln_scan::{
    core_component, detail_id, detail_row, generator_version, need_version, plugins_final,
    plugins_probed, rating_bucket_text, readme_html_version, refresh_http_error, scan_db_status,
    scan_notes, scan_summary, style_fields, themes_found, DetectedComponent, SCAN_PLUGIN_COUNT,
};
use bugbounty_server::wordpress_vuln_scan::{build_index_from_feed, match_component, FeedRecord, IndexedVuln, VulnIndex};

#[test]
fn core_version_sources() {
    assert_eq!(generator_version(r#"<meta name="generator" content="WordPress 6.4.2" />"#).as_deref(), Some("6.4.2"));
    assert_eq!(generator_version("nothing"), None);
    assert_eq!(readme_html_version("<br /> Version 6.3.1\n").as_deref(), Some("6.3.1"));
    assert_eq!(readme_html_version("Version beta"), None);
    let c = core_component(Some("no tag"), Some("6.5"), Some("Version 6.0"));
    assert_eq!(c.version.as_deref(), Some("6.5"));
    assert_eq!(c.evidence, "wp_json");
    let g = core_component(Some(r#"content="WordPress 6.1""#), Some("6.5"), None);
    assert_eq!(g.evidence, "generator_meta");
    let n = core_component(None, None, None);
    assert_eq!(n.evidence, "not_found");
    assert_eq!(n.slug, "wordpress");
}

fn plugin(slug: &str, version: Option<&str>, evidence: &str) -> DetectedComponent {
    DetectedComponent {
        software_type: "plugin".into(),
        slug: slug.into(),
        name: slug.into(),
        version: version.map(|v| v.to_string()),
        evidence: evidence.into(),
    }
}

#[test]
fn plugins_merged_and_sorted() {
    let mut readmes: Vec<Option<String>> = vec![None; SCAN_PLUGIN_COUNT];
    readmes[2] = Some("=== WooCommerce ===\nStable tag: 8.0.1\n".into());
    readmes[3] = Some("404 page".into());
    let found = plugins_probed(&vec!["zeta".to_string(), "akismet".to_string()], &readmes);
    let slugs: Vec<&str> = found.iter().map(|c| c.slug.as_str()).collect();
    assert_eq!(slugs, vec!["zeta", "akismet", "woocommerce"]);
    assert_eq!(found[2].version.as_deref(), Some("8.0.1"));
    assert_eq!(need_version(&found), vec!["zeta".to_string(), "akismet".to_string()]);
    let done = plugins_final(found, &vec![("akismet".to_string(), Some("Stable tag: 5.3".to_string())), ("zeta".to_string(), None)]);
    let slugs: Vec<&str> = done.iter().map(|c| c.slug.as_str()).collect();
    assert_eq!(slugs, vec!["akismet", "woocommerce", "zeta"]);
    assert_eq!(done[0].version.as_deref(), Some("5.3"));
    assert_eq!(done[0].evidence, "readme.txt");
    assert_eq!(done[2].evidence, "html_reference");
}

#[test]
fn themes_from_style_headers() {
    assert_eq!(
        style_fields("/*\nTheme Name: Astra\nVersion: 4.1\n*/"),
        Some((Some("4.1".to_string()), Some("Astra".to_string())))
    );
    let t = themes_found(
        &vec!["astra".to_string(), "blank".to_string()],
        &vec![("astra".to_string(), Some("Theme Name: Astra Pro\nVersion: 4.1\n".to_string())), ("blank".to_string(), None)],
    );
    assert_eq!(t[0].slug, "astra");
    assert_eq!(t[0].name, "Astra Pro");
    assert_eq!(t[0].version.as_deref(), Some("4.1"));
    assert_eq!(t[0].evidence, "style.css");
    assert_eq!(t[1].version, None);
}

#[test]
fn summary_and_notes() {
    let comps = vec![
        DetectedComponent { software_type: "core".into(), slug: "wordpress".into(), name: "WordPress Core".into(), version: None, evidence: "not_found".into() },
        plugin("a", Some("1"), "readme.txt"),
    ];
    let s = scan_summary(&comps, &vec!["critical".into(), "high".into(), "weird".into()]);
    assert_eq!((s.components_scanned, s.components_with_version, s.total_findings), (2, 1, 3));
    assert_eq!((s.critical, s.high, s.medium, s.low, s.none), (1, 1, 0, 0, 1));
    assert_eq!(rating_bucket_text("HIGH"), Some("high"));
    assert_eq!(rating_bucket_text("n/a"), None);
    let notes = scan_notes(10, "2024-05-01", &comps);
    assert_eq!(notes.len(), 5);
    assert_eq!(notes[3], "Matched against Wordfence DB (10 vulns, updated 2024-05-01)");
    assert_eq!(notes[4], "Core version not detected — core CVEs may be incomplete.");
    assert_eq!(refresh_http_error(401, "nope"), "Wordfence API HTTP 401 Unauthorized: nope");
    let db = scan_db_status(None, true, "/data/feed.json");
    assert!(!db.present && db.api_key_configured);
    assert_eq!(db.source, "https://www.wordfence.com/api/intelligence/v3/vulnerabilities");
}

fn row(id: &str, t: &str, slug: &str) -> IndexedVuln {
    IndexedVuln {
        record: 0,
        software: 0,
        id: id.into(),
        cve: None,
        cve_link: None,
        software_type: t.into(),
        slug: slug.into(),
        name: slug.into(),
        key: format!("{t}:{slug}"),
        ranges: vec![],
        range_labels: vec![],
    }
}

#[test]
fn detail_rows_chosen() {
    let index = VulnIndex::from_entries(
        vec![row("x", "plugin", "a"), row("v1", "plugin", "a"), row("v1", "theme", "b")],
        "now".into(),
        2,
        10,
    );
    assert_eq!(detail_row(&index, "v1", None, None), Ok(1));
    assert_eq!(detail_row(&index, "v1", Some("THEME"), Some("B")), Ok(2));
    assert_eq!(detail_row(&index, "v1", Some("core"), None), Ok(1));
    assert_eq!(detail_row(&index, "nope", None, None), Err("Vulnerability id not found: nope".to_string()));
    assert_eq!(detail_id(Some("  ")), Err("Missing 'id' parameter".to_string()));
    assert_eq!(detail_id(Some(" v1 ")), Ok("v1".to_string()));
}

fn feed_range(from: &str, to: &str) -> bugbounty_server::wordpress_vuln_scan::FeedRange {
    bugbounty_server::wordpress_vuln_scan::FeedRange {
        label: format!("{from} - {to}"),
        from_version: Some(from.into()),
        to_version: Some(to.into()),
        from_inclusive: Some(true),
        to_inclusive: Some(true),
    }
}

fn feed_soft(t: &str, slug: &str, ranges: Vec<bugbounty_server::wordpress_vuln_scan::FeedRange>) -> bugbounty_server::wordpress_vuln_scan::FeedSoftware {
    bugbounty_server::wordpress_vuln_scan::FeedSoftware {
        software_type: Some(t.into()),
        slug: Some(slug.into()),
        name: None,
        affected_versions: ranges,
    }
}

#[test]
fn index_buckets_find_matches_by_key() {
    let rec = |id: &str, soft: Vec<bugbounty_server::wordpress_vuln_scan::FeedSoftware>| FeedRecord {
        id: Some(id.into()),
        cve: None,
        cve_link: None,
        software: soft,
    };
    let feed = vec![
        rec("a", vec![feed_soft("plugin", "Akismet", vec![feed_range("1.0", "2.0")]), feed_soft("theme", "astra", vec![feed_range("*", "3.0")])]),
        rec("b", vec![feed_soft("plugin", "akismet", vec![feed_range("3.0", "4.0")])]),
        rec("c", vec![feed_soft("core", "", vec![feed_range("*", "6.4")]), feed_soft("plugin", "akismet", vec![feed_range("1.5", "1.9")])]),
    ];
    let index = build_index_from_feed(&feed, "t".into(), 5);
    assert_eq!(index.count(), 3);
    assert_eq!(index.vulns().len(), 5);
    assert_eq!(index.vulns()[0].key, "plugin:akismet");
    assert_eq!(match_component(&index, "plugin", "AKISMET", Some("1.6")), vec![0, 4]);
    assert_eq!(match_component(&index, "plugin", "akismet", Some("3.5")), vec![2]);
    assert_eq!(match_component(&index, "plugin", "akismet", None), Vec::<usize>::new());
    assert_eq!(match_component(&index, "core", "anything", Some("6.0")), vec![3]);
    assert_eq!(match_component(&index, "theme", "astra", Some("2.0")), vec![1]);
    assert_eq!(match_component(&index, "theme", "other", Some("2.0")), Vec::<usize>::new());
}
