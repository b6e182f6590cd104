use bugbounty_server::severity::{rank_sev, sev, sev_rank};

#[test]
fn severity_mapping_and_ranking() {
    assert_eq!(sev("critical"), "critical");
    assert_eq!(sev("HIGH"), "high");
    assert_eq!(sev("Medium"), "medium");
    assert_eq!(sev("low"), "low");
    assert_eq!(sev("info"), "informational");
    assert_eq!(sev(""), "informational");
    assert!(sev_rank("critical") > sev_rank("high"));
    assert!(sev_rank("high") > sev_rank("informational"));
    assert_eq!(rank_sev(sev_rank("medium")), "medium");
}

#[test]
fn sev_rank_round_trip_and_none() {
    for s in ["critical", "high", "medium", "low", "informational"] {
        assert_eq!(rank_sev(sev_rank(s)), s);
    }
    assert_eq!(sev_rank("bogus"), 0);
    assert_eq!(rank_sev(0), "none");
    assert_eq!(sev("  Critical (9.8) "), "critical");
    assert_eq!(sev("none"), "informational");
}
