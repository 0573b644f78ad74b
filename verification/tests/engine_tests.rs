use portscan::adaptive::derive_timeout;
use portscan::adaptive::probe_ports;
use portscan::aggregate::aggregate;
use portscan::config::ScanConfig;
use portscan::engine::run_attempts;
use portscan::engine::AttemptEvent;
use portscan::engine::AttemptMachine;
use portscan::engine::StepDecision;
use portscan::outcome::PortOutcome;
use portscan::outcome::PortStatus;

fn config(start: u16, end: u16) -> ScanConfig {
    ScanConfig {
        start,
        end,
        workers: 500,
        timeout_ms: 300,
        retries: 1,
        adaptive: true,
        fast_public: false,
    }
}

#[test]
fn adaptive_timeout_from_probe_samples() {
    // median 14, tripled 42, floored to 150, under the 300 ms ceiling
    let samples: Vec<u64> = vec![10, 12, 14, 16, 1000];
    assert_eq!(derive_timeout(&samples, 300), 150);
}

#[test]
fn adaptive_timeout_capped_at_ceiling() {
    // floor at 150 still exceeds a 120 ms ceiling
    let samples: Vec<u64> = vec![10, 12, 14, 16, 1000];
    assert_eq!(derive_timeout(&samples, 120), 120);

    // median 100, tripled 300, over the floor, capped at 250
    let slow: Vec<u64> = vec![100, 100, 100, 100, 100];
    assert_eq!(derive_timeout(&slow, 250), 250);
    assert_eq!(derive_timeout(&slow, 1000), 300);
}

#[test]
fn adaptive_timeout_single_sample() {
    let one: Vec<u64> = vec![7];
    assert_eq!(derive_timeout(&one, 1000), 150);
}

#[test]
fn probe_set_is_the_five_common_ports() {
    assert_eq!(probe_ports(), vec![22, 80, 443, 53, 25]);
}

#[test]
fn fast_public_overrides_apply() {
    let mut cfg = config(1, 1024);
    cfg.workers = 10;
    cfg.retries = 5;
    cfg.fast_public = true;
    assert!(!cfg.wants_probe());
    let eff = cfg.effective_settings(None);
    assert_eq!(eff.timeout_ms, 80);
    assert_eq!(eff.retries, 0);
    assert_eq!(eff.workers, 2000);
}

#[test]
fn fast_public_keeps_small_timeout_and_large_pool() {
    let mut cfg = config(1, 1024);
    cfg.workers = 5000;
    cfg.timeout_ms = 40;
    cfg.fast_public = true;
    let eff = cfg.effective_settings(None);
    assert_eq!(eff.timeout_ms, 40);
    assert_eq!(eff.workers, 5000);
    assert_eq!(eff.retries, 0);
}

#[test]
fn probed_timeout_stands_without_fast_public() {
    let cfg = config(1, 1024);
    assert!(cfg.wants_probe());
    let eff = cfg.effective_settings(Some(150));
    assert_eq!(eff.timeout_ms, 150);
    assert_eq!(eff.workers, 500);
    assert_eq!(eff.retries, 1);
}

#[test]
fn refusal_is_never_retried() {
    let events = vec![AttemptEvent::Refused, AttemptEvent::TimedOut, AttemptEvent::TimedOut];
    let (outcome, attempts) = run_attempts(7, 2, &events);
    assert_eq!(attempts, 1);
    assert_eq!(outcome.port, 7);
    assert_eq!(outcome.status, PortStatus::Closed);
    assert!(outcome.banner.is_none());
}

#[test]
fn timeouts_use_the_whole_budget() {
    let events = vec![AttemptEvent::TimedOut, AttemptEvent::TimedOut, AttemptEvent::TimedOut];
    let (outcome, attempts) = run_attempts(443, 2, &events);
    assert_eq!(attempts, 3);
    assert_eq!(outcome.status, PortStatus::Closed);
}

#[test]
fn timeout_then_connection_opens_with_banner() {
    let events = vec![
        AttemptEvent::TimedOut,
        AttemptEvent::Connected { read: Some(b"SSH-2.0".to_vec()) },
    ];
    let (outcome, attempts) = run_attempts(22, 1, &events);
    assert_eq!(attempts, 2);
    assert_eq!(outcome.status, PortStatus::Open);
    assert_eq!(outcome.banner.as_deref(), Some("SSH-2.0"));
}

#[test]
fn empty_or_failed_read_yields_no_banner() {
    let empty_read = vec![AttemptEvent::Connected { read: Some(Vec::new()) }];
    let (outcome, _) = run_attempts(80, 0, &empty_read);
    assert_eq!(outcome.status, PortStatus::Open);
    assert!(outcome.banner.is_none());

    let failed_read = vec![AttemptEvent::Connected { read: None }];
    let (outcome, _) = run_attempts(80, 0, &failed_read);
    assert_eq!(outcome.status, PortStatus::Open);
    assert!(outcome.banner.is_none());
}

#[test]
fn invalid_encoding_is_replaced_in_banner() {
    // a lone 0xFF is not UTF-8: the decode must replace it, not echo the byte
    let events = vec![AttemptEvent::Connected { read: Some(vec![0xFF, b'A']) }];
    let (outcome, _) = run_attempts(80, 0, &events);
    assert_eq!(outcome.banner.as_deref(), Some("\u{FFFD}A"));
}

#[test]
fn machine_steps_match_whole_runs() {
    let mut machine = AttemptMachine::new(25, 1);
    match machine.step(&AttemptEvent::TimedOut) {
        StepDecision::Retry => {}
        StepDecision::Done(_) => panic!("first timeout must retry with budget left"),
    }
    match machine.step(&AttemptEvent::TimedOut) {
        StepDecision::Retry => panic!("budget spent: the port must settle"),
        StepDecision::Done(outcome) => {
            assert_eq!(outcome.port, 25);
            assert_eq!(outcome.status, PortStatus::Closed);
        }
    }
}

#[test]
fn aggregate_sorts_strictly_ascending() {
    let primary = vec![
        PortOutcome { port: 443, status: PortStatus::Open, banner: None },
        PortOutcome { port: 22, status: PortStatus::Open, banner: Some("ssh".to_string()) },
        PortOutcome { port: 80, status: PortStatus::Closed, banner: None },
        PortOutcome { port: 53, status: PortStatus::Open, banner: None },
    ];
    let result = aggregate(primary, Vec::new());
    let ports: Vec<u16> = result.iter().map(|o| o.port).collect();
    assert_eq!(ports, vec![22, 53, 443]);
    for pair in ports.windows(2) {
        assert!(pair[0] < pair[1]);
    }
    assert!(result.iter().all(|o| o.status == PortStatus::Open));
    assert_eq!(result[0].banner.as_deref(), Some("ssh"));
}

#[test]
fn aggregate_uses_fallback_only_when_nothing_open() {
    let closed = vec![
        PortOutcome { port: 1, status: PortStatus::Closed, banner: None },
        PortOutcome { port: 2, status: PortStatus::Closed, banner: None },
    ];
    let fallback = vec![PortOutcome { port: 22, status: PortStatus::Open, banner: None }];
    let result = aggregate(closed, fallback);
    assert_eq!(result.len(), 1);
    assert_eq!(result[0].port, 22);

    let open = vec![PortOutcome { port: 5, status: PortStatus::Open, banner: None }];
    let fallback = vec![PortOutcome { port: 22, status: PortStatus::Open, banner: None }];
    let result = aggregate(open, fallback);
    assert_eq!(result.len(), 1);
    assert_eq!(result[0].port, 5);
}
