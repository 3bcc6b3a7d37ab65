use tunshare::doctor::{
    check_foreign_dnsmasq, check_ip_forwarding, check_natpmp_port, check_root, CheckResult,
    CheckStatus, CheckSummary,
};

#[test]
fn summary_counts_by_status() {
    let results = vec![
        CheckResult::pass("a", "ok"),
        CheckResult::pass("b", "ok"),
        CheckResult::warn("c", "do thing", "detail"),
        CheckResult::fail("d", "fix it", "detail"),
    ];
    let s = CheckSummary::from_results(&results);
    assert_eq!(s.pass, 2);
    assert_eq!(s.warn, 1);
    assert_eq!(s.fail, 1);
    assert_eq!(s.total(), 4);
}

#[test]
fn doctor_verdicts() {
    assert!(matches!(check_root(0).status, CheckStatus::Pass));
    assert!(matches!(check_root(501).status, CheckStatus::Fail { .. }));
    let r = check_ip_forwarding(Ok(" 1\n".to_string()));
    assert!(matches!(r.status, CheckStatus::Warn { .. }));
    let r = check_ip_forwarding(Ok("7".to_string()));
    assert_eq!(r.detail, "got: 7");
    assert!(matches!(check_ip_forwarding(Ok("0".to_string())).status, CheckStatus::Pass));
    let r = check_foreign_dnsmasq(Some("123\n456\n".to_string()));
    assert_eq!(r.detail, "running PIDs: 123, 456");
    let r = check_natpmp_port(Some("COMMAND PID\n".to_string()));
    assert!(matches!(r.status, CheckStatus::Pass));
    let r = check_natpmp_port(Some("COMMAND PID\nfoo 1\nbar 2\n".to_string()));
    assert_eq!(r.detail, "foo 1\nbar 2");
}
