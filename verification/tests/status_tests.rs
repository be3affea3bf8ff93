use globalping_probe::status::disconnect::DisconnectTracker;
use globalping_probe::status::icmp_tcp_test::{is_vpn, DiffLevel, IcmpTcpTest};
use globalping_probe::status::ping_test::PingTest;
use globalping_probe::status::status_manager::{ProbeStatus, StatusManager};



#[test]
fn triggers_at_max_disconnects() {
    let mut tracker = DisconnectTracker::new();
    assert!(!tracker.record());
    assert!(!tracker.record());
    assert!(tracker.record()); // 3rd disconnect → true
}

#[test]
fn count_starts_at_zero() {
    let mut tracker = DisconnectTracker::new();
    assert_eq!(tracker.count(), 0);
}

#[test]
fn failed_is_true_only_when_both_versions_fail() {
    let mut pt = PingTest::new();
    pt.failed = false;
    let ipv4_ok = true;
    let ipv6_ok = false;
    pt.failed = !ipv4_ok && !ipv6_ok;
    assert!(!pt.failed);

    pt.failed = false;
    let ipv4_ok = false;
    let ipv6_ok = false;
    pt.failed = !ipv4_ok && !ipv6_ok;
    assert!(pt.failed);
}



fn mgr() -> StatusManager { StatusManager::new() }

#[test]
fn initial_status_is_initializing() {
    let m = mgr();
    assert_eq!(m.get_status(), ProbeStatus::Initializing);
}

#[test]
fn sigterm_overrides_everything() {
    let mut m = mgr();
    m.set_sigterm();
    // Even with everything else ok, sigterm wins
    m.ping_test_failed = Some(false);
    m.icmp_tcp_test_failed = Some(false);
    assert_eq!(m.get_status(), ProbeStatus::Sigterm);
}

#[test]
fn status_ready_when_all_tests_pass() {
    let mut m = mgr();
    m.ping_test_failed = Some(false);
    m.icmp_tcp_test_failed = Some(false);
    assert_eq!(m.get_status(), ProbeStatus::Ready);
}

#[test]
fn ping_test_failed_status() {
    let mut m = mgr();
    m.ping_test_failed = Some(true);
    m.icmp_tcp_test_failed = Some(false);
    assert_eq!(m.get_status(), ProbeStatus::PingTestFailed);
}

#[test]
fn icmp_tcp_test_failed_status() {
    let mut m = mgr();
    m.ping_test_failed = Some(false);
    m.icmp_tcp_test_failed = Some(true);
    assert_eq!(m.get_status(), ProbeStatus::IcmpTcpTestFailed);
}

#[test]
fn too_many_disconnects_status() {
    let mut m = mgr();
    m.ping_test_failed = Some(false);
    m.icmp_tcp_test_failed = Some(false);
    m.too_many_disconnects = true;
    assert_eq!(m.get_status(), ProbeStatus::TooManyDisconnects);
}

#[test]
fn ping_test_failed_takes_priority_over_icmp_tcp() {
    let mut m = mgr();
    m.ping_test_failed = Some(true);
    m.icmp_tcp_test_failed = Some(true);
    assert_eq!(m.get_status(), ProbeStatus::PingTestFailed);
}

#[test]
fn icmp_tcp_takes_priority_over_disconnects() {
    let mut m = mgr();
    m.ping_test_failed = Some(false);
    m.icmp_tcp_test_failed = Some(true);
    m.too_many_disconnects = true;
    assert_eq!(m.get_status(), ProbeStatus::IcmpTcpTestFailed);
}

#[test]
fn initializing_when_only_ping_test_done() {
    let mut m = mgr();
    m.ping_test_failed = Some(false);
    // icmp_tcp_test_failed is still None
    assert_eq!(m.get_status(), ProbeStatus::Initializing);
}

#[test]
fn report_disconnect_triggers_status_after_three() {
    let mut m = mgr();
    m.ping_test_failed = Some(false);
    m.icmp_tcp_test_failed = Some(false);
    assert!(!m.report_disconnect());
    assert!(!m.report_disconnect());
    let too_many = m.report_disconnect();
    assert!(too_many);
    assert_eq!(m.get_status(), ProbeStatus::TooManyDisconnects);
}

#[test]
fn on_proxy_status_updates_icmp_tcp_failed() {
    let mut m = mgr();
    m.ping_test_failed = Some(false);
    m.icmp_tcp_test_failed = Some(false);
    // inject a border-line diff (>= 60ms but < 100ms) — needs is_proxy to trigger
    m.icmp_tcp_test.diffs_v4 = vec![Some(DiffLevel::Medium)];
    m.icmp_tcp_test.diffs_v6 = vec![];
    assert_eq!(m.get_status(), ProbeStatus::Ready);

    m.on_proxy_status(true);
    assert_eq!(m.icmp_tcp_test_failed, Some(true));
    assert_eq!(m.get_status(), ProbeStatus::IcmpTcpTestFailed);
}

#[test]
fn status_display_strings() {
    assert_eq!(ProbeStatus::Ready.to_string(), "ready");
    assert_eq!(ProbeStatus::Initializing.to_string(), "initializing");
    assert_eq!(ProbeStatus::PingTestFailed.to_string(), "ping-test-failed");
    assert_eq!(ProbeStatus::IcmpTcpTestFailed.to_string(), "icmp-tcp-test-failed");
    assert_eq!(ProbeStatus::TooManyDisconnects.to_string(), "too-many-disconnects");
    assert_eq!(ProbeStatus::Sigterm.to_string(), "sigterm");
}



#[test]
fn vpn_not_detected_when_diffs_all_small() {
    let diffs = vec![Some(DiffLevel::Small), Some(DiffLevel::Small), Some(DiffLevel::Small)];
    assert!(!is_vpn(diffs.as_slice(), None));
    assert!(!is_vpn(diffs.as_slice(), Some(false)));
    assert!(!is_vpn(diffs.as_slice(), Some(true)));
}

#[test]
fn vpn_detected_when_one_diff_over_100() {
    let diffs = vec![Some(DiffLevel::Small), Some(DiffLevel::High), Some(DiffLevel::Small)];
    assert!(is_vpn(diffs.as_slice(), None));
}

#[test]
fn vpn_detected_when_two_diffs_over_60() {
    let diffs = vec![Some(DiffLevel::Medium), Some(DiffLevel::Medium), Some(DiffLevel::Small)];
    assert!(is_vpn(diffs.as_slice(), None));
}

#[test]
fn vpn_not_detected_when_only_one_diff_over_60_without_proxy() {
    let diffs = vec![Some(DiffLevel::Medium), Some(DiffLevel::Small), Some(DiffLevel::Small)];
    assert!(!is_vpn(diffs.as_slice(), None));
    assert!(!is_vpn(diffs.as_slice(), Some(false)));
}

#[test]
fn vpn_detected_when_one_diff_over_60_with_proxy() {
    let diffs = vec![Some(DiffLevel::Medium), Some(DiffLevel::Small), Some(DiffLevel::Small)];
    assert!(is_vpn(diffs.as_slice(), Some(true)));
}

#[test]
fn null_diffs_do_not_trigger_vpn() {
    let diffs = vec![None, None, None];
    assert!(!is_vpn(diffs.as_slice(), Some(true)));
}

#[test]
fn empty_diffs_do_not_trigger_vpn() {
    assert!(!is_vpn(&[], Some(true)));
}

#[test]
fn set_proxy_and_evaluate_re_triggers_on_existing_diffs() {
    let mut test = IcmpTcpTest::new();
    // inject diffs directly (bypassing async run_once)
    test.diffs_v4 = vec![Some(DiffLevel::Medium), Some(DiffLevel::Small)];
    test.diffs_v6 = vec![Some(DiffLevel::Small), Some(DiffLevel::Small)];

    // Without proxy: one v4 diff >= 60 but only one → not VPN
    assert!(!test.is_vpn_detected());

    // Set is_proxy = true → one diff >= 60 + proxy = VPN
    let vpn = test.set_proxy_and_evaluate(true);
    assert!(vpn);
    assert!(test.failed);
}

#[test]
fn set_proxy_and_evaluate_clears_vpn_when_proxy_false() {
    let mut test = IcmpTcpTest::new();
    test.diffs_v4 = vec![Some(DiffLevel::Medium)];
    test.diffs_v6 = vec![];
    test.is_proxy = Some(true);
    test.failed = true;

    // Re-evaluate with is_proxy = false
    let vpn = test.set_proxy_and_evaluate(false);
    assert!(!vpn, "single diff >= 60 without proxy should not flag VPN");
    assert!(!test.failed);
}

#[test]
fn vpn_not_triggered_by_small_diffs() {
    let diffs = vec![Some(DiffLevel::Small), Some(DiffLevel::Small), Some(DiffLevel::Small)];
    assert!(!is_vpn(diffs.as_slice(), None));
    assert!(!is_vpn(diffs.as_slice(), Some(true)));
}

#[test]
fn vpn_triggered_by_single_diff_over_100() {
    let diffs = vec![Some(DiffLevel::Small), Some(DiffLevel::High), Some(DiffLevel::Small)];
    assert!(is_vpn(diffs.as_slice(), None));
}

#[test]
fn vpn_triggered_by_two_diffs_over_60() {
    let diffs = vec![Some(DiffLevel::Medium), Some(DiffLevel::Medium), Some(DiffLevel::Small)];
    assert!(is_vpn(diffs.as_slice(), None));
}

#[test]
fn vpn_not_triggered_by_one_diff_over_60_without_proxy() {
    let diffs = vec![Some(DiffLevel::Medium), Some(DiffLevel::Small), Some(DiffLevel::Small)];
    assert!(!is_vpn(diffs.as_slice(), None));
    assert!(!is_vpn(diffs.as_slice(), Some(false)));
}

#[test]
fn vpn_triggered_by_one_diff_over_60_with_proxy_true() {
    let diffs = vec![Some(DiffLevel::Medium), Some(DiffLevel::Small), Some(DiffLevel::Small)];
    assert!(is_vpn(diffs.as_slice(), Some(true)));
}

#[test]
fn null_diffs_never_trigger_vpn() {
    let diffs: Vec<Option<DiffLevel>> = vec![None, None, None];
    assert!(!is_vpn(diffs.as_slice(), Some(true)));
}

#[test]
fn exactly_60_does_not_count_as_over_60() {
    // threshold is >= 60, so exactly 60.0 DOES count
    let diffs = vec![Some(DiffLevel::Medium), Some(DiffLevel::Medium)];
    assert!(is_vpn(diffs.as_slice(), None), "two diffs exactly at 60ms should trigger VPN");
}

// ── StatusManager state transitions ──────────────────────────────────────────

#[test]
fn status_initializing_before_any_test_runs() {
    let m = StatusManager::new();
    assert_eq!(m.get_status(), ProbeStatus::Initializing);
}

#[test]
fn status_initializing_after_only_ping_test() {
    let mut m = StatusManager::new();
    m.ping_test_failed = Some(false);
    assert_eq!(m.get_status(), ProbeStatus::Initializing);
}

#[test]
fn status_ready_when_all_pass() {
    let mut m = StatusManager::new();
    m.ping_test_failed = Some(false);
    m.icmp_tcp_test_failed = Some(false);
    assert_eq!(m.get_status(), ProbeStatus::Ready);
    assert_eq!(m.get_status().to_string(), "ready");
}

#[test]
fn status_ping_test_failed() {
    let mut m = StatusManager::new();
    m.ping_test_failed = Some(true);
    m.icmp_tcp_test_failed = Some(false);
    assert_eq!(m.get_status(), ProbeStatus::PingTestFailed);
}

#[test]
fn status_icmp_tcp_failed() {
    let mut m = StatusManager::new();
    m.ping_test_failed = Some(false);
    m.icmp_tcp_test_failed = Some(true);
    assert_eq!(m.get_status(), ProbeStatus::IcmpTcpTestFailed);
}

#[test]
fn ping_test_failed_has_higher_priority_than_icmp_tcp() {
    let mut m = StatusManager::new();
    m.ping_test_failed = Some(true);
    m.icmp_tcp_test_failed = Some(true);
    assert_eq!(m.get_status(), ProbeStatus::PingTestFailed);
}

#[test]
fn icmp_tcp_failed_has_higher_priority_than_disconnects() {
    let mut m = StatusManager::new();
    m.ping_test_failed = Some(false);
    m.icmp_tcp_test_failed = Some(true);
    m.too_many_disconnects = true;
    assert_eq!(m.get_status(), ProbeStatus::IcmpTcpTestFailed);
}

#[test]
fn sigterm_overrides_all_other_statuses() {
    let mut m = StatusManager::new();
    m.ping_test_failed = Some(true);
    m.icmp_tcp_test_failed = Some(true);
    m.too_many_disconnects = true;
    m.set_sigterm();
    assert_eq!(m.get_status(), ProbeStatus::Sigterm);
}

#[test]
fn three_disconnects_trigger_status() {
    let mut m = StatusManager::new();
    m.ping_test_failed = Some(false);
    m.icmp_tcp_test_failed = Some(false);
    assert!(!m.report_disconnect());
    assert!(!m.report_disconnect());
    assert!(m.report_disconnect()); // 3rd triggers
    assert_eq!(m.get_status(), ProbeStatus::TooManyDisconnects);
}

#[test]
fn on_proxy_true_with_medium_diff_triggers_icmp_tcp_failed() {
    let mut m = StatusManager::new();
    m.ping_test_failed = Some(false);
    m.icmp_tcp_test_failed = Some(false);
    m.icmp_tcp_test.diffs_v4 = vec![Some(DiffLevel::Medium)]; // one diff >= 60 but < 100
    m.icmp_tcp_test.diffs_v6 = vec![];
    assert_eq!(m.get_status(), ProbeStatus::Ready);

    m.on_proxy_status(true);
    assert_eq!(m.get_status(), ProbeStatus::IcmpTcpTestFailed);
}

#[test]
fn on_proxy_false_clears_vpn_when_only_medium_diff() {
    let mut m = StatusManager::new();
    m.ping_test_failed = Some(false);
    m.icmp_tcp_test_failed = Some(true);
    m.icmp_tcp_test.is_proxy = Some(true);
    m.icmp_tcp_test.diffs_v4 = vec![Some(DiffLevel::Medium)];
    m.icmp_tcp_test.diffs_v6 = vec![];

    m.on_proxy_status(false);
    // With is_proxy=false, one diff>=60 is not enough → cleared
    assert_eq!(m.icmp_tcp_test_failed, Some(false));
    assert_eq!(m.get_status(), ProbeStatus::Ready);
}

#[test]
fn probe_status_display() {
    assert_eq!(ProbeStatus::Initializing.to_string(), "initializing");
    assert_eq!(ProbeStatus::Ready.to_string(), "ready");
    assert_eq!(ProbeStatus::PingTestFailed.to_string(), "ping-test-failed");
    assert_eq!(ProbeStatus::IcmpTcpTestFailed.to_string(), "icmp-tcp-test-failed");
    assert_eq!(ProbeStatus::TooManyDisconnects.to_string(), "too-many-disconnects");
    assert_eq!(ProbeStatus::Sigterm.to_string(), "sigterm");
}

// ── Live Linux tests ──────────────────────────────────────────────────────────


const SEC: u128 = 1_000_000_000;

#[test]
fn three_disconnects_within_ttl_trigger() {
    let mut t = DisconnectTracker::new();
    assert!(!t.record_at(0));
    assert!(!t.record_at(100 * SEC));
    assert!(t.record_at(299 * SEC));
}

#[test]
fn disconnects_older_than_ttl_stop_counting() {
    let mut t = DisconnectTracker::new();
    assert!(!t.record_at(0));
    assert!(!t.record_at(10 * SEC));
    assert!(!t.record_at(301 * SEC));
    assert_eq!(t.count_at(301 * SEC), 2);
    assert_eq!(t.count_at(311 * SEC), 1);
}
