use portscan::engine::primary_sweep;
use portscan::engine::AttemptEvent;
use portscan::error::ScanError;
use portscan::outcome::PortStatus;
use portscan::resolve::first_address;
use portscan::scan::fallback_ports;
use portscan::scan::fallback_probe;
use portscan::scan::scan_from_traces;

fn closed_trace() -> Vec<AttemptEvent> {
    vec![AttemptEvent::Refused, AttemptEvent::Refused]
}

fn open_trace(banner: &[u8]) -> Vec<AttemptEvent> {
    vec![
        AttemptEvent::Connected { read: Some(banner.to_vec()) },
        AttemptEvent::Refused,
    ]
}

#[test]
fn sweep_yields_one_outcome_per_port() {
    let traces = vec![
        closed_trace(),
        open_trace(b"a"),
        closed_trace(),
        open_trace(b"b"),
        closed_trace(),
    ];
    let outcomes = primary_sweep(10, 14, 1, &traces);
    assert_eq!(outcomes.len(), 5);
    for (k, outcome) in outcomes.iter().enumerate() {
        assert_eq!(outcome.port, 10 + k as u16);
    }
    assert_eq!(outcomes[1].status, PortStatus::Open);
    assert_eq!(outcomes[3].status, PortStatus::Open);
    assert_eq!(outcomes[0].status, PortStatus::Closed);
}

#[test]
fn open_port_with_banner_is_reported() {
    // host resolves to a single address; port 80 is open with an HTTP banner
    let addrs = vec!["93.184.216.34".to_string()];
    let ip = first_address(addrs).unwrap();
    assert_eq!(ip, "93.184.216.34");

    let traces = vec![open_trace(b"HTTP/1.1")];
    let idle_fallback = vec![AttemptEvent::TimedOut, AttemptEvent::TimedOut];
    let result = scan_from_traces(80, 80, 1, &traces, &idle_fallback).unwrap();
    assert_eq!(result.len(), 1);
    assert_eq!(result[0].port, 80);
    assert_eq!(result[0].status, PortStatus::Open);
    assert_eq!(result[0].banner.as_deref(), Some("HTTP/1.1"));
}

#[test]
fn refused_range_falls_back_and_may_end_empty() {
    // port 1 refuses; the fallback probes 22 and 80, which also refuse:
    // the final result is empty and the "no open ports" path is taken
    let traces = vec![vec![AttemptEvent::Refused]];
    let refused_fallback = vec![AttemptEvent::Refused, AttemptEvent::Refused];
    let result = scan_from_traces(1, 1, 0, &traces, &refused_fallback).unwrap();
    assert!(result.is_empty());
}

#[test]
fn fallback_contributes_open_well_known_ports() {
    let traces = vec![vec![AttemptEvent::Refused]];
    let fallback = vec![
        AttemptEvent::Refused,
        AttemptEvent::Connected { read: Some(b"http".to_vec()) },
    ];
    let result = scan_from_traces(1, 1, 0, &traces, &fallback).unwrap();
    assert_eq!(result.len(), 1);
    assert_eq!(result[0].port, 80);
    assert_eq!(result[0].status, PortStatus::Open);
    assert_eq!(result[0].banner.as_deref(), Some("http"));
}

#[test]
fn inverted_range_is_a_fatal_validation_error() {
    // end = 5, start = 10: rejected before any attempt event is consumed
    let traces: Vec<Vec<AttemptEvent>> = Vec::new();
    let fallback = vec![AttemptEvent::TimedOut, AttemptEvent::TimedOut];
    let result = scan_from_traces(10, 5, 0, &traces, &fallback);
    match result {
        Err(e) => {
            assert_eq!(e, ScanError::InvalidRange);
            assert_eq!(e.exit_code(), 2);
            assert_eq!(e.message(), "end must be >= start");
        }
        Ok(_) => panic!("an inverted range must be rejected"),
    }
}

#[test]
fn resolution_failure_is_fatal_with_its_own_exit_code() {
    let none: Vec<String> = Vec::new();
    match first_address(none) {
        Err(e) => {
            assert_eq!(e, ScanError::ResolveFailed);
            assert_eq!(e.exit_code(), 1);
            assert_eq!(e.message(), "failed to resolve host");
        }
        Ok(_) => panic!("no address: resolution must fail"),
    }
}

#[test]
fn resolver_takes_the_first_address_in_order() {
    let addrs = vec!["10.0.0.2".to_string(), "10.0.0.1".to_string()];
    assert_eq!(first_address(addrs).unwrap(), "10.0.0.2");
}

#[test]
fn fallback_probe_keeps_only_connections() {
    assert_eq!(fallback_ports(), vec![22, 80]);

    let events = vec![AttemptEvent::Connected { read: None }, AttemptEvent::TimedOut];
    let open = fallback_probe(&events);
    assert_eq!(open.len(), 1);
    assert_eq!(open[0].port, 22);
    assert_eq!(open[0].status, PortStatus::Open);
    assert!(open[0].banner.is_none());

    let both = vec![
        AttemptEvent::Connected { read: None },
        AttemptEvent::Connected { read: Some(b"hi".to_vec()) },
    ];
    let open = fallback_probe(&both);
    assert_eq!(open.len(), 2);
    assert_eq!(open[0].port, 22);
    assert_eq!(open[1].port, 80);
    assert_eq!(open[1].banner.as_deref(), Some("hi"));
}

#[test]
fn whole_range_closed_yields_every_port_counted_but_nothing_open() {
    let traces = vec![closed_trace(), closed_trace(), closed_trace()];
    let outcomes = primary_sweep(1, 3, 1, &traces);
    assert_eq!(outcomes.len(), 3);
    assert!(outcomes.iter().all(|o| o.status == PortStatus::Closed));
    assert!(outcomes.iter().all(|o| o.banner.is_none()));
}
