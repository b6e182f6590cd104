use bugbounty_server::attack_surface::{
    fingerprint, select_job, JobSig, authentication_node, core_node, files_node, headers_node, missing_tools, rest_node, sources,
    vulnerabilities_node, HeaderEntry, NucleiFinding, NucleiSource, PathFinding, PathsSource,
    RestSource, UsersSource, VulnSource, WfFinding, WfSummaryCounts, WpCheckSource, XmlrpcSource,
};

fn check_with_headers(headers: Vec<(&str, &str)>) -> WpCheckSource {
    WpCheckSource {
        detected: None,
        version: None,
        version_source: None,
        wp_json_version: None,
        generator_tag: None,
        readme_accessible: None,
        headers: Some(
            headers
                .into_iter()
                .map(|(k, v)| HeaderEntry { name: k.to_string(), value: Some(v.to_string()) })
                .collect(),
        ),
    }
}

#[test]
fn empty_sources_mark_all_missing() {
    let values = sources()
        .iter()
        .map(|(t, l)| (t.clone(), l.clone(), false))
        .collect::<Vec<_>>();
    let missing = missing_tools(&values);
    assert_eq!(missing.len(), sources().len());
}

#[test]
fn core_node_extracts_version_and_readme() {
    let check = Some(WpCheckSource {
        detected: Some(true),
        version: Some("6.8.1".into()),
        version_source: Some("readme_html".into()),
        wp_json_version: Some("6.8.1".into()),
        generator_tag: Some("WordPress 6.8.1".into()),
        readme_accessible: Some(true),
        headers: Some(vec![]),
    });
    let node = core_node(&check);
    assert_eq!(node.id, "core");
    assert_eq!(node.status, "low");
    let version = node.items.iter().find(|i| i.label == "Version").unwrap();
    assert_eq!(version.value.as_deref(), Some("6.8.1"));
    assert!(node.items.iter().any(|i| i.label == "readme.txt accessible"));
    assert_eq!(node.note, "WordPress 6.8.1 detected");
}

#[test]
fn authentication_node_ranks_xmlrpc_and_users() {
    let xmlrpc = Some(XmlrpcSource {
        available: Some(true),
        method_count: Some(3),
        multicall: Some(true),
        pingback: Some(true),
        system_get_capabilities: None,
        interesting: vec!["system.getCapabilities".into()],
    });
    let users = Some(UsersSource {
        user_count: 1,
        rest_users_enabled: Some(true),
        author_enum_works: Some(false),
    });
    let node = authentication_node(&xmlrpc, &users);
    assert_eq!(node.status, "high");
    assert!(node.items.iter().any(|i| i.label == "Pingback" && i.severity == "high"));
    assert!(node.items.iter().any(|i| i.label == "Users enumerated" && i.severity == "medium"));
    assert!(node.items.iter().any(|i| i.label == "Interesting method"));
    assert_eq!(node.note, "XML-RPC open — extra auth surface");
}

#[test]
fn rest_node_flags_interesting_routes() {
    let rest = Some(RestSource {
        available: Some(true),
        route_count: Some(40),
        interesting_routes: vec!["/wp/v2/users".into(), "/wp/v2/media".into()],
        namespaces: vec!["wp/v2".into()],
        wp_version: None,
    });
    let node = rest_node(&rest);
    assert_eq!(node.status, "high");
    assert_eq!(node.items.iter().filter(|i| i.severity == "high").count(), 3);
    assert_eq!(node.note, "2 interesting routes exposed");
}

#[test]
fn files_node_maps_risk_to_severity() {
    let paths = Some(PathsSource {
        findings: vec![
            PathFinding {
                path: Some("/wp-config.php.bak".into()),
                status: Some(200),
                risk: Some("High".into()),
                note: None,
                length: Some(512),
            },
            PathFinding {
                path: Some("/debug.log".into()),
                status: Some(200),
                risk: Some("Medium".into()),
                note: None,
                length: Some(100),
            },
        ],
        probed: Some(50),
    });
    let node = files_node(&paths);
    assert_eq!(node.status, "high");
    assert_eq!(node.count, 4);
}

#[test]
fn vulnerabilities_node_aggregates_wf_and_nuclei() {
    let vuln = Some(VulnSource {
        findings: vec![WfFinding {
            title: Some("XSS in plugin".into()),
            cve: Some("CVE-2024-1".into()),
            cvss_rating: Some("high".into()),
            score_severity: Some("high".into()),
            cvss_display: Some("7.5".into()),
            name: None,
            slug: None,
            detected_version: None,
            patched: None,
            remediation: None,
        }],
        summary: Some(WfSummaryCounts { critical: Some(0), high: Some(1), medium: Some(0), low: Some(0) }),
    });
    let nuclei = Some(NucleiSource {
        findings: vec![NucleiFinding {
            name: Some("WP user enum".into()),
            severity: Some("medium".into()),
            matched_at: None,
            template_id: Some("wp-users".into()),
        }],
    });
    let node = vulnerabilities_node(&vuln, &nuclei);
    assert_eq!(node.status, "high");
    assert_eq!(node.items.iter().filter(|i| i.severity != "informational").count(), 2);
    assert!(node.items.iter().any(|i| i.label == "WP user enum" && i.severity == "medium"));
    let summary = node.items.iter().find(|i| i.label == "Wordfence scan summary").unwrap();
    assert_eq!(summary.value.as_deref(), Some("critical 0 · high 1 · medium 0 · low 0"));
}

#[test]
fn headers_node_marks_missing_headers() {
    let check = Some(check_with_headers(vec![("server", "nginx"), ("x-frame-options", "DENY")]));
    let node = headers_node(&check);
    assert_eq!(node.status, "medium");
    let present = node.items.iter().find(|i| i.label == "X-Frame-Options").unwrap();
    assert_eq!(present.value.as_deref(), Some("present"));
    let csp = node.items.iter().find(|i| i.label == "Content-Security-Policy").unwrap();
    assert_eq!(csp.value.as_deref(), Some("missing"));
    assert_eq!(csp.severity, "medium");
    assert_eq!(node.note, "5 security headers missing");
}

fn sig(id: &str, tool: &str, status: &str, has_result: bool, url: &str, finished: Option<&str>) -> JobSig {
    JobSig {
        id: id.to_string(),
        tool: tool.to_string(),
        status: status.to_string(),
        has_result,
        url: url.to_string(),
        finished_at: finished.map(str::to_string),
    }
}

#[test]
fn explorer_fingerprint_and_job_choice() {
    let jobs = vec![
        sig("job-000002", "wordpress-vuln-scan", "running", false, "https://a.com", None),
        sig("job-000001", "wordpress-vuln-scan", "succeeded", true, "a.com/", Some("t1")),
        sig("job-000003", "wordpress-nuclei", "failed", true, "https://b.com", Some("t2")),
    ];
    assert_eq!(select_job(&jobs, "wordpress-vuln-scan", "https://a.com"), Some(1));
    assert_eq!(select_job(&jobs, "wordpress-nuclei", "https://a.com"), None);
    assert_eq!(
        fingerprint(7, &jobs, "https://a.com"),
        "gen:7|wordpress-vuln-scan:job-000001:succeeded:t1|wordpress-nuclei:none"
    );
    assert_ne!(fingerprint(1, &jobs, "https://a.com"), fingerprint(10, &jobs, "https://a.com"));
    assert_ne!(fingerprint(12, &vec![], "https://a.com"), fingerprint(13, &vec![], "https://a.com"));
}
