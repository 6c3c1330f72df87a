use lanscanner::ipv4::{ipv4_to_string, parse_ipv4, parse_ipv4_subnet};
use lanscanner::scanner::{
    build_probe_report, classify_connect_error, collect_open_hosts, collect_retry_targets,
    normalize_probe_targets, prepare_probe_targets, retry_scan_timeout, retry_worker_count,
    scan_concurrency_limit, scan_timeout, scan_worker_count, should_report_progress,
    should_retry_without_bind, sort_and_dedup_hosts, ConnectErrorKind, ProbeOutcome, ScanAction,
    ScanFlow, ScanRound, TcpProbeReport,
    RETRY_HOST_BURST_THRESHOLD, RETRY_HOST_FAST_TIMEOUT_THRESHOLD, RETRY_SCAN_CONCURRENCY,
    RETRY_SCAN_CONCURRENCY_BURST, RETRY_SCAN_TIMEOUT, RETRY_SCAN_TIMEOUT_FAST, SCAN_CONCURRENCY,
    SCAN_CONCURRENCY_BURST, SCAN_HOST_BURST_THRESHOLD, SCAN_HOST_FAST_TIMEOUT_THRESHOLD,
    SCAN_TIMEOUT, SCAN_TIMEOUT_FAST,
};

fn ip(s: &str) -> u32 {
    parse_ipv4(s).unwrap()
}

#[test]
fn worker_count_is_capped_by_concurrency() {
    assert_eq!(scan_worker_count(0, SCAN_CONCURRENCY), 0);
    assert_eq!(scan_worker_count(1, SCAN_CONCURRENCY), 1);
    assert_eq!(
        scan_worker_count(SCAN_CONCURRENCY, SCAN_CONCURRENCY),
        SCAN_CONCURRENCY
    );
    assert_eq!(
        scan_worker_count(SCAN_CONCURRENCY + 10, SCAN_CONCURRENCY),
        SCAN_CONCURRENCY
    );
}

#[test]
fn probe_targets_only_use_caller_provided_candidates() {
    let subnet = parse_ipv4_subnet("192.168.31.0/24").unwrap();
    let local_ip = ip("192.168.31.8");
    let targets = normalize_probe_targets(
        &vec![
            String::from("10.0.0.5"),
            String::from("192.168.31.8"),
            String::from("192.168.31.40"),
            String::from("192.168.31.12"),
            String::from("192.168.31.12"),
            String::from("169.254.2.9"),
            String::from("not-an-ip"),
        ],
        local_ip,
        subnet,
    );
    assert_eq!(targets, vec![ip("192.168.31.12"), ip("192.168.31.40")]);
}

#[test]
fn empty_candidate_list_does_not_trigger_subnet_fallback() {
    let subnet = parse_ipv4_subnet("192.168.31.8/30").unwrap();
    let local_ip = ip("192.168.31.9");
    let targets = normalize_probe_targets(&Vec::new(), local_ip, subnet);
    assert!(targets.is_empty());
}

#[test]
fn normalize_targets_keeps_stable_sorted_dedup_order() {
    let subnet = parse_ipv4_subnet("192.168.31.0/24").unwrap();
    let local_ip = ip("192.168.31.8");
    let targets = normalize_probe_targets(
        &vec![
            String::from("192.168.31.44"),
            String::from("192.168.31.12"),
            String::from("192.168.31.44"),
            String::from("192.168.31.100"),
        ],
        local_ip,
        subnet,
    );
    assert_eq!(
        targets,
        vec![ip("192.168.31.12"), ip("192.168.31.44"), ip("192.168.31.100")]
    );
}

#[test]
fn scan_limit_switches_to_burst_profile_for_large_subnets() {
    assert_eq!(
        scan_concurrency_limit(SCAN_HOST_BURST_THRESHOLD - 1),
        SCAN_CONCURRENCY
    );
    assert_eq!(
        scan_concurrency_limit(SCAN_HOST_BURST_THRESHOLD),
        SCAN_CONCURRENCY_BURST
    );
    assert_eq!(
        scan_worker_count(SCAN_CONCURRENCY_BURST + 20, SCAN_CONCURRENCY_BURST),
        SCAN_CONCURRENCY_BURST
    );
}

#[test]
fn scan_timeout_switches_to_fast_profile_for_large_subnets() {
    assert_eq!(
        scan_timeout(SCAN_HOST_FAST_TIMEOUT_THRESHOLD - 1),
        SCAN_TIMEOUT
    );
    assert_eq!(
        scan_timeout(SCAN_HOST_FAST_TIMEOUT_THRESHOLD),
        SCAN_TIMEOUT_FAST
    );
    assert_eq!(
        scan_timeout(SCAN_HOST_FAST_TIMEOUT_THRESHOLD + 10),
        SCAN_TIMEOUT_FAST
    );
}

#[test]
fn fallback_only_for_bind_related_errors() {
    assert!(should_retry_without_bind(ConnectErrorKind::AddrNotAvailable));
    assert!(!should_retry_without_bind(ConnectErrorKind::ConnectionRefused));
    assert!(!should_retry_without_bind(ConnectErrorKind::NetworkUnreachable));
    assert!(!should_retry_without_bind(ConnectErrorKind::HostUnreachable));
}

#[test]
fn retry_only_for_timeout_like_probe_outcome() {
    assert_eq!(
        classify_connect_error(ConnectErrorKind::TimedOut),
        ProbeOutcome::RetryableTimeout
    );
    assert_eq!(
        classify_connect_error(ConnectErrorKind::ConnectionRefused),
        ProbeOutcome::Closed
    );
    assert_eq!(
        classify_connect_error(ConnectErrorKind::NetworkUnreachable),
        ProbeOutcome::Closed
    );
    assert_eq!(
        classify_connect_error(ConnectErrorKind::HostUnreachable),
        ProbeOutcome::Closed
    );
}

#[test]
fn collect_retry_targets_only_keeps_retryable_timeout_hosts() {
    let ip1 = ip("192.168.1.10");
    let ip2 = ip("192.168.1.11");
    let ip3 = ip("192.168.1.12");
    let results = vec![
        (ip1, ProbeOutcome::Open),
        (ip2, ProbeOutcome::RetryableTimeout),
        (ip3, ProbeOutcome::Closed),
    ];

    assert_eq!(collect_retry_targets(&results), vec![ip2]);
    assert_eq!(collect_open_hosts(&results), vec![ip1]);
}

#[test]
fn retry_worker_count_uses_burst_limit_for_large_retry_batches() {
    assert_eq!(retry_worker_count(0), 0);
    assert_eq!(retry_worker_count(10), 10);
    assert_eq!(
        retry_worker_count(RETRY_SCAN_CONCURRENCY),
        RETRY_SCAN_CONCURRENCY
    );
    assert_eq!(
        retry_worker_count(RETRY_HOST_BURST_THRESHOLD),
        RETRY_SCAN_CONCURRENCY_BURST
    );
    assert_eq!(
        retry_worker_count(RETRY_HOST_BURST_THRESHOLD + 20),
        RETRY_SCAN_CONCURRENCY_BURST
    );
}

#[test]
fn retry_timeout_switches_to_fast_profile_for_large_retry_batches() {
    assert_eq!(
        retry_scan_timeout(RETRY_HOST_FAST_TIMEOUT_THRESHOLD - 1),
        RETRY_SCAN_TIMEOUT
    );
    assert_eq!(
        retry_scan_timeout(RETRY_HOST_FAST_TIMEOUT_THRESHOLD),
        RETRY_SCAN_TIMEOUT_FAST
    );
    assert_eq!(
        retry_scan_timeout(RETRY_HOST_FAST_TIMEOUT_THRESHOLD + 10),
        RETRY_SCAN_TIMEOUT_FAST
    );
}

#[test]
fn progress_counts_retryable_timeout_only_in_retry_round() {
    assert!(!should_report_progress(
        ProbeOutcome::RetryableTimeout,
        false
    ));
    assert!(should_report_progress(ProbeOutcome::RetryableTimeout, true));
    assert!(should_report_progress(ProbeOutcome::Open, false));
    assert!(should_report_progress(ProbeOutcome::Closed, false));
}

#[test]
fn refused_or_closed_outcomes_do_not_enter_retry_targets() {
    let refused_outcome = classify_connect_error(ConnectErrorKind::ConnectionRefused);
    let timeout_outcome = classify_connect_error(ConnectErrorKind::TimedOut);
    let results = vec![
        (ip("192.168.1.20"), refused_outcome),
        (ip("192.168.1.21"), ProbeOutcome::Closed),
        (ip("192.168.1.22"), timeout_outcome),
    ];
    assert_eq!(collect_retry_targets(&results), vec![ip("192.168.1.22")]);
}

#[test]
fn open_host_result_is_sorted_and_deduplicated() {
    let mut open_hosts = vec![ip("192.168.31.44"), ip("192.168.31.12"), ip("192.168.31.44")];
    sort_and_dedup_hosts(&mut open_hosts);
    assert_eq!(open_hosts, vec![ip("192.168.31.12"), ip("192.168.31.44")]);
}

#[test]
fn probe_report_splits_candidates_into_open_closed_and_retry_exhausted() {
    let report = build_probe_report(
        vec![ip("192.168.31.12"), ip("192.168.31.44"), ip("192.168.31.50")],
        vec![ip("192.168.31.44")],
        vec![ip("192.168.31.12"), ip("192.168.31.50")],
    );

    assert_eq!(
        report.candidate_hosts,
        vec!["192.168.31.12", "192.168.31.44", "192.168.31.50"]
    );
    assert_eq!(report.open_hosts, vec!["192.168.31.44"]);
    assert_eq!(report.closed_hosts, vec!["192.168.31.12", "192.168.31.50"]);
    assert_eq!(
        report.retry_exhausted_hosts,
        vec!["192.168.31.12", "192.168.31.50"]
    );
}

#[test]
fn addresses_parse_and_print_back() {
    assert_eq!(parse_ipv4("192.168.001.5"), None);
    assert_eq!(parse_ipv4("256.1.1.1"), None);
    assert_eq!(parse_ipv4("1.2.3"), None);
    assert_eq!(ipv4_to_string(ip("10.0.0.255")), "10.0.0.255");
    let subnet = parse_ipv4_subnet("192.168.31.77/24").unwrap();
    assert_eq!(subnet.network(), ip("192.168.31.0"));
    assert_eq!(subnet.broadcast(), ip("192.168.31.255"));
    assert!(subnet.contains(ip("192.168.31.200")));
    assert!(!subnet.contains(ip("192.168.32.1")));
    assert!(parse_ipv4_subnet("192.168.31.0/33").is_none());
}

#[test]
fn prepared_targets_need_a_valid_local_address_and_subnet() {
    let candidates = vec![String::from("192.168.31.40"), String::from("192.168.31.0")];
    let (local, targets) =
        prepare_probe_targets("192.168.31.8", "192.168.31.0/24", &candidates).unwrap();
    assert_eq!(local, ip("192.168.31.8"));
    assert_eq!(targets, vec![ip("192.168.31.40")]);
    assert!(prepare_probe_targets("bad", "192.168.31.0/24", &candidates).is_none());
    assert!(prepare_probe_targets("192.168.31.8", "bad", &candidates).is_none());
}

fn host(d: u32) -> u32 {
    (192 << 24) | (168 << 16) | (1 << 8) | d
}

#[test]
fn sweep_retries_timeouts_once_then_reports() {
    let cands: Vec<String> = ["192.168.1.12", "192.168.1.10", "192.168.1.11", "192.168.1.10"]
        .iter()
        .map(|s| s.to_string())
        .collect();
    let (mut flow, action) = ScanFlow::new("192.168.1.2", "192.168.1.0/24", &cands);
    assert_eq!(
        action,
        ScanAction::RunRound(ScanRound {
            targets: vec![host(10), host(11), host(12)],
            workers: 3,
            timeout_ms: 880,
            count_timeouts: false,
            progress_total: 3,
        })
    );
    let action = flow.step(Some(vec![
        (host(10), ProbeOutcome::Open),
        (host(11), ProbeOutcome::RetryableTimeout),
        (host(12), ProbeOutcome::Closed),
    ]));
    assert_eq!(
        action,
        ScanAction::RunRound(ScanRound {
            targets: vec![host(11)],
            workers: 1,
            timeout_ms: 1200,
            count_timeouts: true,
            progress_total: 3,
        })
    );
    match flow.step(Some(vec![(host(11), ProbeOutcome::RetryableTimeout)])) {
        ScanAction::Finish { report, report_zero_progress } => {
            assert!(!report_zero_progress);
            assert_eq!(report.candidate_hosts, vec!["192.168.1.10", "192.168.1.11", "192.168.1.12"]);
            assert_eq!(report.open_hosts, vec!["192.168.1.10"]);
            assert_eq!(report.closed_hosts, vec!["192.168.1.11", "192.168.1.12"]);
            assert_eq!(report.retry_exhausted_hosts, vec!["192.168.1.11"]);
        }
        other => panic!("unexpected {other:?}"),
    }
}

#[test]
fn sweep_without_candidates_reports_zero_progress() {
    let (_, action) = ScanFlow::new("192.168.1.2", "192.168.1.0/24", &Vec::new());
    assert_eq!(action, ScanAction::Finish { report: TcpProbeReport::default(), report_zero_progress: true });
    let (_, action) = ScanFlow::new("bad", "192.168.1.0/24", &Vec::new());
    assert_eq!(action, ScanAction::Finish { report: TcpProbeReport::default(), report_zero_progress: false });
}

#[test]
fn cancelled_sweep_gives_an_empty_report() {
    let cands = vec!["192.168.1.10".to_string()];
    let (mut flow, _) = ScanFlow::new("192.168.1.2", "192.168.1.0/24", &cands);
    assert_eq!(flow.step(None), ScanAction::Finish { report: TcpProbeReport::default(), report_zero_progress: false });
}

#[test]
fn zero_candidates_finish_cleanly_and_report_zero_progress() {
    let (flow, action) = ScanFlow::new("192.168.31.8", "192.168.31.0/24", &Vec::new());
    match action {
        ScanAction::Finish { report, report_zero_progress } => {
            assert!(report.open_hosts.is_empty());
            assert!(report_zero_progress);
        }
        other => panic!("unexpected {other:?}"),
    }
    assert!(flow.open_hosts.is_empty());
}
