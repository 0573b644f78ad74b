//! Adaptive per-attempt timeout, derived from probe round trips.
//!
//! The latency prober times a short connection attempt to each of five
//! common ports, success or not, and the elapsed times land here: the
//! median of the samples is tripled, floored at 150 ms, and capped at the
//! configured base timeout. The probing itself is plain socket work done by
//! the surrounding layer; this module holds the whole derivation.

use vstd::prelude::*;

verus! {

/// Each latency probe's connection attempt is bounded by this, milliseconds.
pub const PROBE_CONNECT_CAP_MS: u64 = 200;

/// The adaptive timeout is never derived below this, milliseconds.
pub const ADAPTIVE_FLOOR_MS: u64 = 150;

/// The median round trip is multiplied by this.
pub const ADAPTIVE_MULTIPLIER: u64 = 3;

/// `x` inserted into the sorted sequence `s`, before the first element it
/// does not exceed.
pub open spec fn sorted_insert(s: Seq<u64>, x: u64) -> Seq<u64>
    decreases s.len(),
{
    if s.len() == 0 {
        seq![x]
    } else if x <= s[0] {
        seq![x] + s
    } else {
        seq![s[0]] + sorted_insert(s.drop_first(), x)
    }
}

/// The samples in ascending order, by repeated insertion.
pub open spec fn sort_samples(s: Seq<u64>) -> Seq<u64>
    decreases s.len(),
{
    if s.len() == 0 {
        Seq::empty()
    } else {
        sorted_insert(sort_samples(s.drop_first()), s[0])
    }
}

/// The median round-trip sample: the middle element of the sorted samples.
pub open spec fn median_of(samples: Seq<u64>) -> u64
    recommends
        samples.len() > 0,
{
    sort_samples(samples)[samples.len() as int / 2]
}

/// Triple the median, floor the result at 150 ms, cap it at the ceiling.
pub open spec fn adaptive_timeout_model(samples: Seq<u64>, ceiling_ms: u64) -> u64 {
    let tripled = ADAPTIVE_MULTIPLIER * median_of(samples);
    let floored = if tripled < ADAPTIVE_FLOOR_MS { ADAPTIVE_FLOOR_MS as int } else { tripled };
    if floored > ceiling_ms { ceiling_ms } else { floored as u64 }
}

/// The fixed probe set: five ports a reachable host is likely to answer on.
pub fn probe_ports() -> (ports: Vec<u16>)
    ensures
        ports@ == seq![22u16, 80u16, 443u16, 53u16, 25u16],
{
    let mut ports: Vec<u16> = Vec::new();
    ports.push(22);
    ports.push(80);
    ports.push(443);
    ports.push(53);
    ports.push(25);
    proof {
        assert(ports@ =~= seq![22u16, 80u16, 443u16, 53u16, 25u16]);
    }
    ports
}

proof fn lemma_sorted_insert_len(s: Seq<u64>, x: u64)
    ensures
        sorted_insert(s, x).len() == s.len() + 1,
    decreases s.len(),
{
    if s.len() > 0 && !(x <= s[0]) {
        lemma_sorted_insert_len(s.drop_first(), x);
    }
}

proof fn lemma_sort_samples_len(s: Seq<u64>)
    ensures
        sort_samples(s).len() == s.len(),
    decreases s.len(),
{
    if s.len() > 0 {
        lemma_sort_samples_len(s.drop_first());
        lemma_sorted_insert_len(sort_samples(s.drop_first()), s[0]);
    }
}

/// Inserting `x` at the first position whose element it does not exceed is
/// exactly `sorted_insert`.
proof fn lemma_sorted_insert_at(s: Seq<u64>, x: u64, i: int)
    requires
        0 <= i <= s.len(),
        forall|k: int| 0 <= k < i ==> s[k] < x,
        i < s.len() ==> x <= s[i],
    ensures
        sorted_insert(s, x) =~= s.insert(i, x),
    decreases i,
{
    if s.len() == 0 {
        assert(sorted_insert(s, x) =~= s.insert(0, x));
    } else if i == 0 {
        assert(seq![x] + s =~= s.insert(0, x));
    } else {
        lemma_sorted_insert_at(s.drop_first(), x, i - 1);
        assert(seq![s[0]] + s.drop_first().insert(i - 1, x) =~= s.insert(i, x));
    }
}

/// Places `x` into the already-sorted vector `v`, keeping it sorted.
fn insert_sample(v: &mut Vec<u64>, x: u64)
    ensures
        final(v)@ == sorted_insert(old(v)@, x),
{
    let mut i: usize = 0;
    while i < v.len() && v[i] < x
        invariant
            0 <= i <= v@.len(),
            forall|k: int| 0 <= k < i ==> v@[k] < x,
        decreases v@.len() - i,
    {
        i = i + 1;
    }
    proof {
        lemma_sorted_insert_at(v@, x, i as int);
    }
    v.insert(i, x);
}

/// Sorts the probe samples ascending.
fn sort_samples_exec(samples: &Vec<u64>) -> (sorted: Vec<u64>)
    ensures
        sorted@ == sort_samples(samples@),
{
    let mut sorted: Vec<u64> = Vec::new();
    let mut i: usize = samples.len();
    assert(samples@.skip(i as int) =~= Seq::<u64>::empty());
    while i > 0
        invariant
            0 <= i <= samples@.len(),
            sorted@ == sort_samples(samples@.skip(i as int)),
        decreases i,
    {
        i = i - 1;
        let x: u64 = samples[i];
        insert_sample(&mut sorted, x);
        proof {
            assert(samples@.skip(i as int).drop_first() =~= samples@.skip(i as int + 1));
        }
    }
    proof {
        assert(samples@.skip(0) =~= samples@);
    }
    sorted
}

/// Derives the per-attempt timeout from the five probe round trips: the
/// median sample tripled, floored at 150 ms, and capped at `ceiling_ms`
/// (the configured base timeout).
pub fn derive_timeout(samples: &Vec<u64>, ceiling_ms: u64) -> (timeout_ms: u64)
    requires
        samples@.len() > 0,
    ensures
        timeout_ms == adaptive_timeout_model(samples@, ceiling_ms),
{
    let sorted = sort_samples_exec(samples);
    proof {
        lemma_sort_samples_len(samples@);
    }
    let median: u64 = sorted[sorted.len() / 2];
    let tripled: u64 = if median <= u64::MAX / 3 {
        median * 3
    } else {
        u64::MAX
    };
    let floored: u64 = if tripled < ADAPTIVE_FLOOR_MS { ADAPTIVE_FLOOR_MS } else { tripled };
    if floored > ceiling_ms {
        ceiling_ms
    } else {
        floored
    }
}

} // verus!
