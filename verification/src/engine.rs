//! The scan engine's decision core: one unit of work per port.
//!
//! Each port gets up to `retries + 1` timeout-bounded connection attempts.
//! A refusal is a definitive signal and settles the port as closed at once;
//! a timeout retries while budget remains; a successful connection settles
//! the port as open, with whatever the bounded banner read returned. The
//! surrounding layer performs the socket calls and feeds each attempt's
//! event to the [`AttemptMachine`]; the whole unit of work over a recorded
//! event trace is [`run_attempts`], and [`primary_sweep`] runs one unit per
//! port of the range.

use vstd::prelude::*;
use crate::banner::banner_from_read;
use crate::banner::banner_model;
use crate::banner::read_view;
use crate::outcome::banner_matches;
use crate::outcome::PortOutcome;
use crate::outcome::PortStatus;

verus! {

/// The banner read's deadline after a successful connection, milliseconds.
pub const BANNER_READ_MS: u64 = 50;

/// What one bounded connection attempt came to.
#[derive(Debug)]
pub enum AttemptEvent {
    /// The remote actively rejected the connection.
    Refused,
    /// The attempt's deadline expired before a connection was made.
    TimedOut,
    /// The connection succeeded; `read` is what the bounded banner read
    /// then returned, `None` when the read failed or timed out.
    Connected { read: Option<Vec<u8>> },
}

/// An event that settles the port, leaving no attempt to follow.
pub open spec fn is_terminal(e: AttemptEvent) -> bool {
    !(e is TimedOut)
}

/// The banner an attempt's event yields.
pub open spec fn event_banner(e: AttemptEvent) -> Option<Seq<char>> {
    match e {
        AttemptEvent::Connected { read } => banner_model(read_view(read)),
        _ => None,
    }
}

/// How many attempts a port consumes when its successive attempts come to
/// the given events and `budget` attempts are allowed in all: timeouts are
/// retried until an attempt settles the port or the budget is spent.
pub open spec fn attempts_used(events: Seq<AttemptEvent>, budget: int) -> int
    recommends
        1 <= budget <= events.len(),
    decreases budget,
{
    if budget <= 1 || events.len() == 0 {
        1
    } else if is_terminal(events[0]) {
        1
    } else {
        1 + attempts_used(events.drop_first(), budget - 1)
    }
}

/// The event that settles the port: what its last attempt came to.
pub open spec fn deciding_event(events: Seq<AttemptEvent>, budget: int) -> AttemptEvent
    recommends
        1 <= budget <= events.len(),
{
    events[attempts_used(events, budget) - 1]
}

/// Whether the port ends open: exactly when an attempt within the budget
/// connected.
pub open spec fn trace_open(events: Seq<AttemptEvent>, budget: int) -> bool {
    deciding_event(events, budget) is Connected
}

/// The banner the port ends with.
pub open spec fn trace_banner(events: Seq<AttemptEvent>, budget: int) -> Option<Seq<char>> {
    event_banner(deciding_event(events, budget))
}

/// If the first `i` attempts all timed out and attempt `i` settles the port
/// — because its event is terminal, or because it is the last of the budget
/// — then `i + 1` attempts are used in all.
pub proof fn lemma_attempts_settled_at(events: Seq<AttemptEvent>, budget: int, i: int)
    requires
        1 <= budget <= events.len(),
        0 <= i < budget,
        forall|k: int| 0 <= k < i ==> events[k] is TimedOut,
        i < budget - 1 ==> is_terminal(events[i]),
    ensures
        attempts_used(events, budget) == i + 1,
    decreases i,
{
    if i > 0 {
        assert(events[0] is TimedOut);
        assert forall|k: int| 0 <= k < i - 1 implies events.drop_first()[k] is TimedOut by {
            assert(events.drop_first()[k] == events[k + 1]);
        }
        assert(events.drop_first()[i - 1] == events[i]);
        lemma_attempts_settled_at(events.drop_first(), budget - 1, i - 1);
    }
}

/// A refused connection is definitive: the port settles as closed after a
/// single attempt, whatever retry budget remains.
pub proof fn lemma_refusal_is_definitive(events: Seq<AttemptEvent>, budget: int)
    requires
        1 <= budget <= events.len(),
        events[0] is Refused,
    ensures
        attempts_used(events, budget) == 1,
        !trace_open(events, budget),
{
}

/// When every attempt within the budget times out, the full budget of
/// attempts — `retries + 1` of them — is used, and the port settles closed.
pub proof fn lemma_timeouts_exhaust_budget(events: Seq<AttemptEvent>, budget: int)
    requires
        1 <= budget <= events.len(),
        forall|k: int| 0 <= k < budget ==> events[k] is TimedOut,
    ensures
        attempts_used(events, budget) == budget,
        !trace_open(events, budget),
{
    lemma_attempts_settled_at(events, budget, budget - 1);
}

/// Where a port's unit of work stands between attempts.
#[derive(Clone, Copy, Debug)]
pub struct AttemptMachine {
    pub port: u16,
    pub attempts_made: usize,
    pub budget: usize,
}

/// What the unit of work does next.
#[derive(Debug)]
pub enum StepDecision {
    /// The attempt timed out and budget remains: connect again.
    Retry,
    /// The port is settled; its outcome is final.
    Done(PortOutcome),
}

impl AttemptMachine {
    /// Between attempts, at least one attempt of the budget remains.
    pub open spec fn wf(self) -> bool {
        self.attempts_made < self.budget
    }

    /// Ready to make the first of `retries + 1` attempts against `port`.
    pub fn new(port: u16, retries: usize) -> (m: AttemptMachine)
        requires
            retries < usize::MAX,
        ensures
            m.wf(),
            m.port == port,
            m.attempts_made == 0,
            m.budget == retries + 1,
    {
        AttemptMachine { port, attempts_made: 0, budget: retries + 1 }
    }

    /// Feeds the machine what the attempt just made came to. A refusal is
    /// never retried; a connection settles the port open with the read's
    /// banner; a timeout retries exactly while budget remains.
    pub fn step(&mut self, event: &AttemptEvent) -> (d: StepDecision)
        requires
            old(self).wf(),
        ensures
            final(self).port == old(self).port,
            final(self).budget == old(self).budget,
            final(self).attempts_made == old(self).attempts_made + 1,
            d is Retry <==> (*event is TimedOut && old(self).attempts_made + 1 < old(
                self,
            ).budget),
            d is Retry ==> final(self).wf(),
            d matches StepDecision::Done(o) ==> {
                &&& o.port == old(self).port
                &&& o.wf()
                &&& (o.status is Open <==> *event is Connected)
                &&& banner_matches(o.banner, event_banner(*event))
            },
    {
        self.attempts_made = self.attempts_made + 1;
        match event {
            AttemptEvent::Refused => StepDecision::Done(
                PortOutcome { port: self.port, status: PortStatus::Closed, banner: None },
            ),
            AttemptEvent::Connected { read } => {
                let banner = banner_from_read(read);
                StepDecision::Done(
                    PortOutcome { port: self.port, status: PortStatus::Open, banner },
                )
            },
            AttemptEvent::TimedOut => {
                if self.attempts_made < self.budget {
                    StepDecision::Retry
                } else {
                    StepDecision::Done(
                        PortOutcome { port: self.port, status: PortStatus::Closed, banner: None },
                    )
                }
            },
        }
    }
}

/// One port's whole unit of work, run against the recorded attempt events
/// in `events`: attempt `i` comes to `events[i]`. Returns the port's
/// outcome and how many attempts were consumed.
pub fn run_attempts(port: u16, retries: usize, events: &Vec<AttemptEvent>) -> (r: (PortOutcome, usize))
    requires
        retries < usize::MAX,
        events@.len() > retries,
    ensures
        r.0.port == port,
        r.0.wf(),
        r.0.status is Open <==> trace_open(events@, retries + 1),
        banner_matches(r.0.banner, trace_banner(events@, retries + 1)),
        r.1 == attempts_used(events@, retries + 1),
        1 <= r.1 <= retries + 1,
{
    let mut machine = AttemptMachine::new(port, retries);
    let mut i: usize = 0;
    loop
        invariant
            machine.wf(),
            machine.port == port,
            machine.budget == retries + 1,
            machine.attempts_made == i,
            i < retries + 1,
            retries < usize::MAX,
            events@.len() > retries,
            forall|k: int| 0 <= k < i ==> events@[k] is TimedOut,
        decreases retries + 1 - i,
    {
        let decision = machine.step(&events[i]);
        match decision {
            StepDecision::Retry => {
                i = i + 1;
            },
            StepDecision::Done(outcome) => {
                proof {
                    lemma_attempts_settled_at(events@, retries + 1, i as int);
                }
                return (outcome, i + 1);
            },
        }
    }
}

/// The primary sweep: one unit of work per port of the inclusive range
/// `[start, end]`, where `traces[k]` holds the attempt events for port
/// `start + k`. It yields exactly one outcome per port of the range — no
/// port dropped, none duplicated — in ascending port order.
pub fn primary_sweep(start: u16, end: u16, retries: usize, traces: &Vec<Vec<AttemptEvent>>) -> (outcomes: Vec<PortOutcome>)
    requires
        start <= end,
        retries < usize::MAX,
        traces@.len() == end - start + 1,
        forall|k: int| 0 <= k < traces@.len() ==> (#[trigger] traces@[k])@.len() > retries,
    ensures
        outcomes@.len() == end - start + 1,
        forall|k: int| 0 <= k < outcomes@.len() ==> (#[trigger] outcomes@[k]).port == start + k,
        forall|k: int| 0 <= k < outcomes@.len() ==> (#[trigger] outcomes@[k]).wf(),
        forall|k: int|
            0 <= k < outcomes@.len() ==> ((#[trigger] outcomes@[k]).status is Open <==> trace_open(
                traces@[k]@,
                retries + 1,
            )),
        forall|k: int|
            0 <= k < outcomes@.len() ==> banner_matches(
                (#[trigger] outcomes@[k]).banner,
                trace_banner(traces@[k]@, retries + 1),
            ),
{
    let n: usize = traces.len();
    let mut outcomes: Vec<PortOutcome> = Vec::new();
    let mut k: usize = 0;
    while k < n
        invariant
            start <= end,
            retries < usize::MAX,
            n == traces@.len(),
            n == end - start + 1,
            forall|j: int| 0 <= j < traces@.len() ==> (#[trigger] traces@[j])@.len() > retries,
            0 <= k <= n,
            outcomes@.len() == k,
            forall|j: int| 0 <= j < k ==> (#[trigger] outcomes@[j]).port == start + j,
            forall|j: int| 0 <= j < k ==> (#[trigger] outcomes@[j]).wf(),
            forall|j: int|
                0 <= j < k ==> ((#[trigger] outcomes@[j]).status is Open <==> trace_open(
                    traces@[j]@,
                    retries + 1,
                )),
            forall|j: int|
                0 <= j < k ==> banner_matches(
                    (#[trigger] outcomes@[j]).banner,
                    trace_banner(traces@[j]@, retries + 1),
                ),
        decreases n - k,
    {
        let port: u16 = start + (k as u16);
        let result = run_attempts(port, retries, &traces[k]);
        outcomes.push(result.0);
        k = k + 1;
    }
    outcomes
}

} // verus!
