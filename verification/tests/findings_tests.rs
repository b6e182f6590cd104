use bugbounty_server::findings::{
    create_finding, delete_finding, get_finding, list_findings, normalize_severity,
    normalize_status, update_finding, validate, Finding, FindingInput, ListParams,
};

fn input(title: &str) -> FindingInput<f64> {
    FindingInput {
        title: title.into(),
        target: " example.com ".into(),
        vuln_type: "XSS".into(),
        severity: " HIGH ".into(),
        status: "bogus".into(),
        cve_id: "".into(),
        cvss_score: 7.5,
        endpoint: "/search".into(),
        description: "line one\nline two".into(),
        remediation: "".into(),
        references: vec![" https://a ".into(), "  ".into()],
        tags: vec!["reflected".into()],
    }
}

#[test]
fn submissions_validated() {
    assert_eq!(validate(&input("  ")), Err("Title is required".to_string()));
    assert_eq!(validate(&input(&"x".repeat(301))), Err("Title too long".to_string()));
    let mut bad = input("ok");
    bad.endpoint = "a\u{7}b".into();
    assert_eq!(validate(&bad), Err("endpoint contains invalid characters".to_string()));
    let mut long = input("ok");
    long.target = "t".repeat(10001);
    assert_eq!(validate(&long), Err("target too long".to_string()));
    assert_eq!(validate(&input("Reflected XSS")), Ok(()));
    assert_eq!(normalize_severity(" Critical "), "critical");
    assert_eq!(normalize_severity("urgent"), "medium");
    assert_eq!(normalize_status("FIXED"), "fixed");
    assert_eq!(normalize_status(""), "open");
}

#[test]
fn store_read_after_write() {
    let mut all: Vec<Finding<f64>> = Vec::new();
    let f = create_finding(&mut all, &input(" Reflected XSS "), "fnd-1", "t0").unwrap();
    assert_eq!(f.title, "Reflected XSS");
    assert_eq!(f.target, "example.com");
    assert_eq!(f.severity, "high");
    assert_eq!(f.status, "open");
    assert_eq!(f.references, vec!["https://a".to_string()]);
    assert_eq!(f.cvss_score, 7.5);
    let got = get_finding(&all, "fnd-1").unwrap();
    assert_eq!(got.created_at, "t0");
    assert!(create_finding(&mut all, &input(""), "fnd-2", "t1").is_err());
    assert_eq!(all.len(), 1);

    let u = update_finding(&mut all, "fnd-1", &input("New title"), "t2").unwrap();
    assert_eq!(u.id, "fnd-1");
    assert_eq!(u.created_at, "t0");
    assert_eq!(u.updated_at, "t2");
    assert_eq!(get_finding(&all, "fnd-1").unwrap().title, "New title");
    assert_eq!(update_finding(&mut all, "zzz", &input("x"), "t3").err().as_deref(), Some("Finding zzz not found"));

    assert_eq!(delete_finding(&mut all, "zzz"), Err("Finding zzz not found".to_string()));
    assert_eq!(delete_finding(&mut all, "fnd-1"), Ok(()));
    assert!(get_finding(&all, "fnd-1").is_err());
}

#[test]
fn findings_filtered() {
    let mut all: Vec<Finding<f64>> = Vec::new();
    create_finding(&mut all, &input("SQL injection"), "a", "t").unwrap();
    let mut low = input("Open redirect");
    low.severity = "low".into();
    low.tags = vec!["Redirect".into()];
    create_finding(&mut all, &low, "b", "t").unwrap();
    let q = |q: Option<&str>, s: Option<&str>| ListParams { q: q.map(|x| x.to_string()), severity: s.map(|x| x.to_string()), status: None };
    assert_eq!(list_findings(&all, &q(None, None)).len(), 2);
    assert_eq!(list_findings(&all, &q(Some(" SQL "), None))[0].id, "a");
    assert_eq!(list_findings(&all, &q(Some("redirect"), None))[0].id, "b");
    assert_eq!(list_findings(&all, &q(None, Some("LOW")))[0].id, "b");
    assert_eq!(list_findings(&all, &q(Some("nothing"), None)).len(), 0);
}

#[test]
fn findings_listed_newest_first() {
    let mut all: Vec<Finding<f64>> = Vec::new();
    create_finding(&mut all, &input("one"), "a", "2024-01-01T00:00:00Z").unwrap();
    create_finding(&mut all, &input("two"), "b", "2024-03-01T00:00:00Z").unwrap();
    create_finding(&mut all, &input("three"), "c", "2024-02-01T00:00:00Z").unwrap();
    create_finding(&mut all, &input("four"), "d", "2024-03-01T00:00:00Z").unwrap();
    let none = ListParams { q: None, severity: None, status: None };
    let ids: Vec<String> = list_findings(&all, &none).iter().map(|f| f.id.clone()).collect();
    assert_eq!(ids, vec!["b", "d", "c", "a"]);
}
