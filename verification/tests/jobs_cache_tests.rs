use bugbounty_server::jobs::{
    is_known_tool, cli_outcome, job_id, runner_for, status_code, sync_step, JobManager, JobStatus, Runner,
    SyncStep,
};
use bugbounty_server::result_cache::{key, ResultCache, TTL_MS};
use bugbounty_server::status::tool_label;

#[test]
fn cache_read_after_store_and_expiry() {
    let mut c: ResultCache<u32> = ResultCache::new();
    c.store("wordpress-check", " https://a.com ", 7, 1000);
    assert_eq!(c.get("wordpress-check", "https://a.com", 2000), Some(&7));
    assert_eq!(c.get("wordpress-check", "https://b.com", 2000), None);
    assert_eq!(c.get("wordpress-check", "https://a.com", 1000 + TTL_MS), None);
    assert_eq!(key("t", " x "), key("t", "x"));
}

#[test]
fn jobs_lifecycle() {
    let mut m: JobManager<String> = JobManager::new();
    let bad = m.submit("nope", vec![], 0);
    assert_eq!(bad.err().map(|e| e.0), Some(400));
    let v = m.submit("subfinder-enum", vec![("domain".into(), "a.com".into())], 10).unwrap();
    assert_eq!(v.id, job_id(1));
    assert!(matches!(v.status, JobStatus::Queued));
    assert!(m.append_log(&v.id, "hello"));
    assert_eq!(m.logs(&v.id).unwrap(), vec!["hello".to_string()]);
    assert!(m.mark_started(&v.id, 20));
    m.finish(&v.id, 30, Ok("done".to_string()));
    let done = m.get(&v.id).unwrap();
    assert!(matches!(done.status, JobStatus::Succeeded));
    assert_eq!(done.duration_ms, Some(10));
    assert_eq!(status_code(JobStatus::Succeeded), 200);
    assert!(matches!(sync_step(Some((JobStatus::Succeeded, true, None))), SyncStep::Done));
    assert!(matches!(sync_step(None), SyncStep::Fail { code: 404, .. }));
    assert!(matches!(runner_for("katana-crawl"), Some(Runner::Cli { binary: "katana", timeout_secs: 150 })));
    let c: Result<u8, (bool, bool, String)> = cli_outcome(true, false, Ok(1));
    assert_eq!(c, Err((false, true, "Cancelled".to_string())));
    assert_eq!(cli_outcome::<u8>(false, false, Err("bad".into())), Err((false, false, "bad".to_string())));
}

#[test]
fn cache_reads_back_across_other_stores_until_stale() {
    let mut c: ResultCache<u32> = ResultCache::new();
    let g0 = c.generation();
    c.store("nuclei-scan", "https://A.com", 1, 1000);
    for i in 0..300u64 {
        c.store("httpx-probe", &format!("https://h{i}.com"), 2, 1000 + i);
        assert_eq!(c.get("nuclei-scan", " https://a.com ", 1000 + i), Some(&1));
    }
    assert_eq!(c.generation(), g0 + 301);
    assert_eq!(c.get("nuclei-scan", "https://a.com", 1000 + TTL_MS - 1), Some(&1));
    assert_eq!(c.generation(), g0 + 301);
    assert_eq!(c.get("nuclei-scan", "https://a.com", 1000 + TTL_MS), None);
}

#[test]
fn every_job_tool_has_a_label() {
    for t in [
        "subfinder-enum", "waybackurls-mine", "katana-crawl", "httpx-probe", "nuclei-scan",
        "wordpress-nuclei", "ffuf-fuzz", "gitleaks-scan", "trivy-scan", "js-analysis",
        "cors-check", "wordpress-vuln-scan",
    ] {
        assert!(is_known_tool(t));
        assert!(tool_label(t).is_some());
    }
    assert!(!is_known_tool("cve-lookup"));
    assert_eq!(tool_label("trivy-scan"), Some("FS Vuln Scan"));
    let names: Vec<&str> = [JobStatus::Queued, JobStatus::Running, JobStatus::Succeeded, JobStatus::Failed, JobStatus::Cancelled]
        .iter()
        .map(|s| s.as_str())
        .collect();
    assert_eq!(names, vec!["queued", "running", "succeeded", "failed", "cancelled"]);
}
