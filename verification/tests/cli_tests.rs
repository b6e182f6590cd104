use bugbounty_server::cli::{
    binary_candidates, binary_installed, command_display, find_binary, finish_run, not_installed,
    spawn_failed, stream_start, stream_step, CliResult, StepAction, StreamEvent,
};
use bugbounty_server::cli_tools::{
    ffuf_build_args, ffuf_parse_output, gitleaks_build_args, gitleaks_parse_output,
    httpx_build_args, httpx_parse_output, katana_build_args, katana_parse_output,
    nuclei_build_args, nuclei_parse_output, scan_path_param, subfinder_build_args,
    subfinder_parse_output, trivy_build_args, trivy_parse_output, unique_lines,
    wayback_build_args, wayback_parse_output, wp_nuclei_build_args, wp_nuclei_parse_output,
};

fn params(kv: &[(&str, &str)]) -> Vec<(String, String)> {
    kv.iter().map(|(k, v)| (k.to_string(), v.to_string())).collect()
}

fn run(stdout: &str, stderr: &str, ok: bool, error: Option<&str>) -> CliResult {
    CliResult {
        ok,
        binary: "tool".into(),
        installed: true,
        stdout: stdout.into(),
        stderr: stderr.into(),
        exit_code: Some(0),
        error: error.map(|e| e.to_string()),
        duration_ms: 5,
        command: "tool -x".into(),
    }
}

fn strs(v: &[&str]) -> Vec<String> {
    v.iter().map(|s| s.to_string()).collect()
}

#[test]
fn binary_lookup_order() {
    let c = binary_candidates(Some("/usr/bin:/bin"), "ffuf");
    assert_eq!(c, strs(&["/usr/bin/ffuf", "/bin/ffuf", "/opt/homebrew/bin/ffuf", "/usr/local/bin/ffuf"]));
    assert_eq!(find_binary(&c, &vec![false, true, false, true]).as_deref(), Some("/bin/ffuf"));
    assert!(!binary_installed(&c, &vec![false; 4]));
    assert!(binary_installed(&c, &vec![false, false, false, true]));
    assert_eq!(binary_candidates(None, "x"), strs(&["/opt/homebrew/bin/x", "/usr/local/bin/x"]));
    assert_eq!(
        binary_candidates(Some(":/a::/b/"), "x"),
        strs(&["x", "/a/x", "x", "/b/x", "/opt/homebrew/bin/x", "/usr/local/bin/x"])
    );
}

#[test]
fn early_failures() {
    let args = strs(&["-u", "x"]);
    assert_eq!(command_display("nuclei", &args), "nuclei -u x");
    let n = not_installed("ffuf", &args);
    assert!(!n.result.installed);
    assert_eq!(n.result.error.as_deref(), Some("ffuf is not installed. Run: brew install ffuf"));
    assert_eq!(n.result.command, "ffuf -u x");
    let s = spawn_failed("ffuf", &args, "denied", 4);
    assert!(s.result.installed);
    assert_eq!(s.result.error.as_deref(), Some("Failed to spawn ffuf: denied"));
}

#[test]
fn streaming_events() {
    let mut s = stream_start();
    match stream_step(&mut s, StreamEvent::Line("a\r\n".into())) {
        StepAction::Emit(l) => assert_eq!(l, "a"),
        _ => panic!("expected a line"),
    }
    assert!(matches!(stream_step(&mut s, StreamEvent::Idle), StepAction::Continue));
    assert!(matches!(stream_step(&mut s, StreamEvent::ReadFailed("eof".into())), StepAction::Stop));
    assert_eq!(s.stdout.iter().collect::<String>(), "a\r\n");
    assert_eq!(s.stderr.iter().collect::<String>(), "stdout read error: eof\n");
    assert!(matches!(stream_step(&mut s, StreamEvent::CancelRequested), StepAction::Stop));
    assert!(s.cancelled);
}

#[test]
fn finished_runs_judged() {
    let args = strs(&["-x"]);
    let mut s = stream_start();
    stream_step(&mut s, StreamEvent::Line("found\n".into()));
    let r = finish_run("t", &args, 30, s, "", Some(1), 9);
    assert!(r.result.ok);
    assert_eq!(r.result.error, None);

    let quiet = stream_start();
    let r = finish_run("t", &args, 30, quiet, "projectdiscovery banner\nreal error\n\n", Some(2), 9);
    assert!(!r.result.ok);
    assert_eq!(r.result.error.as_deref(), Some("real error"));

    let r = finish_run("t", &args, 30, stream_start(), "", Some(-1), 9);
    assert_eq!(r.result.error.as_deref(), Some("t exited with code -1"));
    let r = finish_run("t", &args, 30, stream_start(), "", None, 9);
    assert_eq!(r.result.error.as_deref(), Some("t exited with code ?"));

    let mut c = stream_start();
    stream_step(&mut c, StreamEvent::Line("partial\n".into()));
    stream_step(&mut c, StreamEvent::CancelRequested);
    let r = finish_run("t", &args, 30, c, "", None, 9);
    assert!(!r.result.ok);
    assert!(r.cancelled);
    assert_eq!(r.result.error.as_deref(), Some("Cancelled"));

    let mut t = stream_start();
    stream_step(&mut t, StreamEvent::TimedOut);
    let r = finish_run("nuclei", &args, 30, t, "", None, 9);
    assert_eq!(r.result.error.as_deref(), Some("nuclei timed out after 30s"));
}

#[test]
fn listing_tools() {
    let p = params(&[("domain", "Example.com"), ("all", "1")]);
    assert_eq!(
        subfinder_build_args(&p).unwrap(),
        strs(&["-d", "example.com", "-silent", "-timeout", "10", "-max-time", "1", "-all"])
    );
    assert_eq!(subfinder_build_args(&params(&[])).unwrap_err(), "Missing 'domain' parameter");
    let out = subfinder_parse_output(&p, &run("b.example.com\n a.example.com \n\nb.example.com\n", "", true, None)).unwrap();
    assert_eq!(out.subdomains, strs(&["a.example.com", "b.example.com"]));
    assert_eq!(out.count, 2);
    assert_eq!(out.error, None);
    let none = subfinder_parse_output(&p, &run("", "", false, None)).unwrap();
    assert_eq!(
        none.error.as_deref(),
        Some("No subdomains found. Add provider API keys to subfinder config for more sources.")
    );
    assert_eq!(unique_lines("b\na\nb\n"), strs(&["a", "b"]));

    let k = params(&[("url", "example.com"), ("depth", " 3 ")]);
    assert_eq!(katana_build_args(&k).unwrap()[1], "https://example.com");
    assert_eq!(katana_build_args(&k).unwrap()[3], "3");
    assert_eq!(katana_build_args(&params(&[("url", "a.com"), ("depth", "x")])).unwrap()[3], "2");
    assert_eq!(katana_build_args(&params(&[("url", "a.com"), ("depth", "  ")])).unwrap()[3], "2");
    assert_eq!(katana_build_args(&params(&[("url", "a.com"), ("depth", "")])).unwrap()[3], "2");
    let kr = katana_parse_output(&k, &run("", "", false, Some("boom"))).unwrap();
    assert_eq!(kr.error.as_deref(), Some("boom"));

    let w = params(&[("url", "https://Shop.Example.com/x")]);
    assert_eq!(wayback_build_args(&w).unwrap(), strs(&["shop.example.com"]));
    let wr = wayback_parse_output(&w, &run("", "", true, None)).unwrap();
    assert_eq!(wr.error.as_deref(), Some("No archived URLs for this domain (or it was never archived)."));
}

#[test]
fn json_tools() {
    let p = params(&[("url", "https://a.com")]);
    assert_eq!(httpx_build_args(&p).unwrap()[1], "https://a.com");
    let h = httpx_parse_output(&p, &run("{\"a\":1}\nnot json\n{bad\n", "", true, None)).unwrap();
    assert_eq!(h.findings.len(), 1);
    assert_eq!(h.error, None);
    let e = httpx_parse_output(&p, &run("", "", false, Some("httpx timed out after 60s"))).unwrap();
    assert_eq!(e.error.as_deref(), Some("No HTTP response parsed. Host may be down, blocked, or unreachable."));
    let t = httpx_parse_output(&p, &run("", "", false, Some("Timed out"))).unwrap();
    assert_eq!(t.error.as_deref(), Some("Timed out"));

    assert_eq!(
        ffuf_build_args(&p, "/w.txt", false, "/tmp/r.json").unwrap_err(),
        "Wordlist missing at /w.txt. Create tools/wordlists/common-paths.txt"
    );
    let fa = ffuf_build_args(&p, "/w.txt", true, "/tmp/r.json").unwrap();
    assert_eq!(fa[1], "https://a.com/FUZZ");
    assert_eq!(fa[13], "/tmp/r.json");
    let fr = ffuf_parse_output(&p, "/w.txt", &run("", "", true, None), "{\"results\":[{\"url\":\"x\"},{\"url\":\"y\"}]}").unwrap();
    assert_eq!(fr.findings.len(), 2);
    let fe = ffuf_parse_output(&p, "/w.txt", &run("", "bad flag", false, None), "").unwrap();
    assert_eq!(fe.error.as_deref(), Some("bad flag"));

    assert_eq!(scan_path_param(&params(&[("path", "")])), ".");
    assert_eq!(trivy_build_args("/repo")[8], "/repo");
    let tr = trivy_parse_output("/repo", &run("{\"Results\":[]}", "", true, None));
    assert!(tr.report.is_some());
    let tb = trivy_parse_output("/repo", &run("oops", "", false, Some("trivy exited with code 1")));
    assert!(tb.report.is_none());
    assert_eq!(tb.error.as_deref(), Some("trivy exited with code 1"));

    assert_eq!(gitleaks_build_args("/repo")[2], "/repo");
    assert_eq!(gitleaks_parse_output("/r", &run("[{\"a\":1},{\"b\":2}]", "", true, None)).findings.len(), 2);
    assert_eq!(gitleaks_parse_output("/r", &run("{\"a\":1}\n{\"b\":2}\n", "", true, None)).findings.len(), 2);
    assert_eq!(gitleaks_parse_output("/r", &run("{\"a\":1}", "", true, None)).findings.len(), 1);
    assert_eq!(gitleaks_parse_output("/r", &run("  ", "", true, None)).findings.len(), 0);
}

#[test]
fn nuclei_runs() {
    let a = nuclei_build_args("https://a.com", &params(&[("tags", " cve,xss ")]));
    assert_eq!(a[6], "medium,high,critical");
    assert_eq!(&a[a.len() - 2..], &["-tags".to_string(), "cve,xss".to_string()]);
    let b = nuclei_build_args("https://a.com", &params(&[("tags", "bad tag!"), ("severity", "low")]));
    assert_eq!(b[6], "low");
    assert_eq!(b.last().unwrap(), "-no-interactsh");
    let r = nuclei_parse_output("https://a.com", "low", &run("", "[ERR] Could not find template x", false, Some("boom")));
    assert_eq!(r.error.as_deref(), Some("No templates found. Run: nuclei -update-templates"));
    assert_eq!(r.note, "severity=low; no-interactsh; empty findings often means clean or templates missing");
    let ok = nuclei_parse_output("https://a.com", "low", &run("{\"id\":1}\n", "", true, None));
    assert_eq!(ok.findings.len(), 1);

    let wp = params(&[("url", "https://a.com"), ("tags", "wp plugin")]);
    assert_eq!(wp_nuclei_build_args(&wp).unwrap_err(), "Invalid tags");
    let wp2 = params(&[("url", "https://a.com")]);
    let args = wp_nuclei_build_args(&wp2).unwrap();
    assert_eq!(args[8], "wordpress");
    assert_eq!(args[6], "low,medium,high,critical");
    let r2 = wp_nuclei_parse_output(&wp2, &run("", "no templates loaded", false, Some("x"))).unwrap();
    assert_eq!(r2.error.as_deref(), Some("No WP templates found. Run: nuclei -update-templates"));
    assert_eq!(r2.note, "tags=wordpress; severity=low,medium,high,critical; WordPress-focused nuclei pass");
}

#[test]
fn json_findings_keep_their_text_and_order() {
    let p = params(&[("url", "https://a.com")]);
    let h = httpx_parse_output(&p, &run("  {\"a\":1}  \n[2]\n{\"b\":2}\n", "", true, None)).unwrap();
    assert_eq!(h.findings, strs(&["{\"a\":1}", "{\"b\":2}"]));
    let n = nuclei_parse_output("https://a.com", "low", &run("[2]\n{\"id\":1}\nx\n", "", true, None));
    assert_eq!(n.findings, strs(&["[2]", "{\"id\":1}"]));
    let fr = ffuf_parse_output(&p, "/w.txt", &run("", "", true, None), "{\"results\":[{\"url\":\"y\"}, {\"url\":\"x\"}]}").unwrap();
    assert_eq!(fr.findings, strs(&["{\"url\":\"y\"}", "{\"url\":\"x\"}"]));
    let none = ffuf_parse_output(&p, "/w.txt", &run("", "", true, None), "{\"other\":[1]}").unwrap();
    assert!(none.findings.is_empty());
    let tr = trivy_parse_output("/repo", &run("{\"Results\": []}", "", true, None));
    assert_eq!(tr.report.as_deref(), Some("{\"Results\": []}"));
    let g = gitleaks_parse_output("/r", &run("[{\"b\": 2}, {\"a\": 1}]", "", true, None));
    assert_eq!(g.findings, strs(&["{\"b\":2}", "{\"a\":1}"]));
    let gl = gitleaks_parse_output("/r", &run("{\"b\":2}\n {\"a\":1}\nzz\n", "", true, None));
    assert_eq!(gl.findings, strs(&["{\"b\":2}", " {\"a\":1}"]));
}
