//! A whole scan run over recorded attempt events.
//!
//! The surrounding layer resolves the host, makes the socket calls, and
//! records what each attempt came to; everything decided about those events
//! happens here: validation first, then the primary sweep, then — only when
//! the sweep found nothing open — the fallback probe of the two well-known
//! ports, and finally aggregation into the open-port list.

use vstd::prelude::*;
use crate::aggregate::aggregate;
use crate::aggregate::all_wf;
use crate::aggregate::distinct_ports;
use crate::aggregate::has_open;
use crate::aggregate::strictly_ascending;
use crate::banner::banner_from_read;
use crate::engine::event_banner;
use crate::engine::primary_sweep;
use crate::engine::trace_banner;
use crate::engine::trace_open;
use crate::engine::AttemptEvent;
use crate::error::ScanError;
use crate::outcome::banner_matches;
use crate::outcome::PortOutcome;
use crate::outcome::PortStatus;

verus! {

/// The fallback probe's generous connect timeout, milliseconds.
pub const FALLBACK_CONNECT_MS: u64 = 1000;

/// The fallback probe's banner-read deadline, milliseconds.
pub const FALLBACK_READ_MS: u64 = 100;

/// The first of the two well-known ports the fallback retries.
pub const FALLBACK_PORT_LOW: u16 = 22;

/// The second of the two well-known ports the fallback retries.
pub const FALLBACK_PORT_HIGH: u16 = 80;

/// Some outcome in the sequence carries the given port.
pub open spec fn contains_port(s: Seq<PortOutcome>, port: int) -> bool {
    exists|j: int| 0 <= j < s.len() && s[j].port == port
}

/// The well-known ports the fallback probe retries, ascending.
pub fn fallback_ports() -> (ports: Vec<u16>)
    ensures
        ports@ == seq![FALLBACK_PORT_LOW, FALLBACK_PORT_HIGH],
{
    let mut ports: Vec<u16> = Vec::new();
    ports.push(FALLBACK_PORT_LOW);
    ports.push(FALLBACK_PORT_HIGH);
    proof {
        assert(ports@ =~= seq![FALLBACK_PORT_LOW, FALLBACK_PORT_HIGH]);
    }
    ports
}

/// One single, generous attempt against a well-known port: an outcome only
/// when the connection succeeded — the fallback contributes nothing else.
pub fn probe_once(port: u16, event: &AttemptEvent) -> (r: Option<PortOutcome>)
    ensures
        r is Some <==> *event is Connected,
        r matches Some(o) ==> o.port == port && o.status is Open && o.wf() && banner_matches(
            o.banner,
            event_banner(*event),
        ),
{
    match event {
        AttemptEvent::Connected { read } => {
            let banner = banner_from_read(read);
            Some(PortOutcome { port, status: PortStatus::Open, banner })
        },
        _ => None,
    }
}

/// The fallback probe: one generous attempt against each of ports 22 and
/// 80, `events[0]` and `events[1]` being what the attempts came to. Only
/// connections contribute, so every outcome is open, and the list is
/// strictly ascending by port.
pub fn fallback_probe(events: &Vec<AttemptEvent>) -> (open: Vec<PortOutcome>)
    requires
        events@.len() == 2,
    ensures
        open@.len() == (if events@[0] is Connected {
            1int
        } else {
            0int
        }) + (if events@[1] is Connected {
            1int
        } else {
            0int
        }),
        events@[0] is Connected ==> open@[0].port == FALLBACK_PORT_LOW && banner_matches(
            open@[0].banner,
            event_banner(events@[0]),
        ),
        events@[1] is Connected ==> {
            let j = if events@[0] is Connected {
                1int
            } else {
                0int
            };
            open@[j].port == FALLBACK_PORT_HIGH && banner_matches(
                open@[j].banner,
                event_banner(events@[1]),
            )
        },
        forall|j: int| 0 <= j < open@.len() ==> (#[trigger] open@[j]).status is Open,
        all_wf(open@),
        strictly_ascending(open@),
        distinct_ports(open@),
{
    let mut open: Vec<PortOutcome> = Vec::new();
    match probe_once(FALLBACK_PORT_LOW, &events[0]) {
        Some(o) => open.push(o),
        None => {},
    }
    match probe_once(FALLBACK_PORT_HIGH, &events[1]) {
        Some(o) => open.push(o),
        None => {},
    }
    open
}

/// A complete scan over recorded attempt events: validates the range, runs
/// the primary sweep — `traces[k]` holding the events for port `start + k`,
/// each port allowed `retries + 1` attempts — and aggregates, with the
/// fallback probe's events `fallback_events` standing in only when the
/// sweep found nothing open. A range with `end < start` is rejected before
/// anything else happens.
pub fn scan_from_traces(
    start: u16,
    end: u16,
    retries: usize,
    traces: &Vec<Vec<AttemptEvent>>,
    fallback_events: &Vec<AttemptEvent>,
) -> (r: Result<Vec<PortOutcome>, ScanError>)
    requires
        retries < usize::MAX,
        fallback_events@.len() == 2,
        start <= end ==> traces@.len() == end - start + 1,
        start <= end ==> forall|k: int|
            0 <= k < traces@.len() ==> (#[trigger] traces@[k])@.len() > retries,
    ensures
        r is Err <==> end < start,
        r matches Err(e) ==> e is InvalidRange,
        r matches Ok(v) ==> {
            &&& strictly_ascending(v@)
            &&& forall|j: int| 0 <= j < v@.len() ==> (#[trigger] v@[j]).status is Open
            &&& all_wf(v@)
        },
        r matches Ok(v) ==> (exists|k: int|
            0 <= k < traces@.len() && trace_open((#[trigger] traces@[k])@, retries + 1)) ==> {
            &&& forall|k: int|
                0 <= k < traces@.len() ==> (contains_port(v@, start + k) <==> trace_open(
                    (#[trigger] traces@[k])@,
                    retries + 1,
                ))
            &&& forall|j: int|
                0 <= j < v@.len() ==> start <= (#[trigger] v@[j]).port <= end && banner_matches(
                    v@[j].banner,
                    trace_banner(traces@[v@[j].port - start]@, retries + 1),
                )
        },
        r matches Ok(v) ==> !(exists|k: int|
            0 <= k < traces@.len() && trace_open((#[trigger] traces@[k])@, retries + 1)) ==> {
            &&& (contains_port(v@, FALLBACK_PORT_LOW as int) <==> fallback_events@[0] is Connected)
            &&& (contains_port(v@, FALLBACK_PORT_HIGH as int) <==> fallback_events@[1] is Connected)
            &&& forall|j: int|
                0 <= j < v@.len() ==> (#[trigger] v@[j]).port == FALLBACK_PORT_LOW || v@[j].port
                    == FALLBACK_PORT_HIGH
            &&& forall|j: int|
                0 <= j < v@.len() && (#[trigger] v@[j]).port == FALLBACK_PORT_LOW
                    ==> banner_matches(v@[j].banner, event_banner(fallback_events@[0]))
            &&& forall|j: int|
                0 <= j < v@.len() && (#[trigger] v@[j]).port == FALLBACK_PORT_HIGH
                    ==> banner_matches(v@[j].banner, event_banner(fallback_events@[1]))
        },
{
    if end < start {
        return Err(ScanError::InvalidRange);
    }
    let outcomes = primary_sweep(start, end, retries, traces);
    let ghost prim = outcomes@;
    proof {
        assert(distinct_ports(prim));
    }
    let fb = fallback_probe(fallback_events);
    let ghost fbs = fb@;
    let result = aggregate(outcomes, fb);
    let ghost res = result@;
    let ghost n = traces@.len();
    let ghost b = retries + 1int;
    proof {
        assert(has_open(prim) <==> (exists|k: int|
            0 <= k < n && trace_open((#[trigger] traces@[k])@, b))) by {
            if has_open(prim) {
                let j = choose|j: int| 0 <= j < prim.len() && prim[j].status is Open;
                assert(trace_open(traces@[j]@, b));
            }
            if exists|k: int| 0 <= k < n && trace_open((#[trigger] traces@[k])@, b) {
                let k = choose|k: int| 0 <= k < n && trace_open((#[trigger] traces@[k])@, b);
                assert(prim[k].status is Open);
            }
        }
        if has_open(prim) {
            assert forall|k: int|
                0 <= k < n implies (contains_port(res, start + k) <==> trace_open(
                (#[trigger] traces@[k])@,
                b,
            )) by {
                if trace_open(traces@[k]@, b) {
                    let x = prim[k];
                    assert(prim.contains(x)) by {
                        assert(prim[k] == x);
                    }
                    assert(res.contains(x));
                    let j = choose|j: int| 0 <= j < res.len() && res[j] == x;
                    assert(contains_port(res, start + k));
                }
                if contains_port(res, start + k) {
                    let j = choose|j: int| 0 <= j < res.len() && res[j].port == start + k;
                    let x = res[j];
                    assert(res.contains(x)) by {
                        assert(res[j] == x);
                    }
                    assert(prim.contains(x) && x.status is Open);
                    let idx = choose|idx: int| 0 <= idx < prim.len() && prim[idx] == x;
                    assert(idx == k);
                    assert(trace_open(traces@[k]@, b));
                }
            }
            assert forall|j: int|
                0 <= j < res.len() implies start <= (#[trigger] res[j]).port <= end
                && banner_matches(
                res[j].banner,
                trace_banner(traces@[res[j].port - start]@, b),
            ) by {
                let x = res[j];
                assert(res.contains(x)) by {
                    assert(res[j] == x);
                }
                assert(prim.contains(x));
                let idx = choose|idx: int| 0 <= idx < prim.len() && prim[idx] == x;
                assert(x.port == start + idx);
            }
        } else {
            assert forall|j: int|
                0 <= j < res.len() implies ((#[trigger] res[j]).port == FALLBACK_PORT_LOW
                || res[j].port == FALLBACK_PORT_HIGH) && (res[j].port == FALLBACK_PORT_LOW
                ==> banner_matches(res[j].banner, event_banner(fallback_events@[0]))) && (
            res[j].port == FALLBACK_PORT_HIGH ==> banner_matches(
                res[j].banner,
                event_banner(fallback_events@[1]),
            )) by {
                let x = res[j];
                assert(res.contains(x)) by {
                    assert(res[j] == x);
                }
                assert(fbs.contains(x));
                let idx = choose|idx: int| 0 <= idx < fbs.len() && fbs[idx] == x;
            }
            assert(contains_port(res, FALLBACK_PORT_LOW as int) <==> fallback_events@[0]
                is Connected) by {
                if fallback_events@[0] is Connected {
                    let x = fbs[0];
                    assert(fbs.contains(x)) by {
                        assert(fbs[0] == x);
                    }
                    assert(res.contains(x));
                    let j = choose|j: int| 0 <= j < res.len() && res[j] == x;
                    assert(contains_port(res, FALLBACK_PORT_LOW as int));
                }
                if contains_port(res, FALLBACK_PORT_LOW as int) {
                    let j = choose|j: int|
                        0 <= j < res.len() && res[j].port == FALLBACK_PORT_LOW as int;
                    let x = res[j];
                    assert(res.contains(x)) by {
                        assert(res[j] == x);
                    }
                    assert(fbs.contains(x));
                    let idx = choose|idx: int| 0 <= idx < fbs.len() && fbs[idx] == x;
                }
            }
            assert(contains_port(res, FALLBACK_PORT_HIGH as int) <==> fallback_events@[1]
                is Connected) by {
                if fallback_events@[1] is Connected {
                    let jj = if fallback_events@[0] is Connected {
                        1int
                    } else {
                        0int
                    };
                    let x = fbs[jj];
                    assert(fbs.contains(x)) by {
                        assert(fbs[jj] == x);
                    }
                    assert(res.contains(x));
                    let j = choose|j: int| 0 <= j < res.len() && res[j] == x;
                    assert(contains_port(res, FALLBACK_PORT_HIGH as int));
                }
                if contains_port(res, FALLBACK_PORT_HIGH as int) {
                    let j = choose|j: int|
                        0 <= j < res.len() && res[j].port == FALLBACK_PORT_HIGH as int;
                    let x = res[j];
                    assert(res.contains(x)) by {
                        assert(res[j] == x);
                    }
                    assert(fbs.contains(x));
                    let idx = choose|idx: int| 0 <= idx < fbs.len() && fbs[idx] == x;
                }
            }
        }
    }
    Ok(result)
}

} // verus!
