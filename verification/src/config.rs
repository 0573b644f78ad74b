//! Scan configuration: validation and the effective per-sweep settings.

use vstd::prelude::*;
use crate::error::ScanError;

verus! {

/// In fast-public mode the per-attempt timeout is capped at this many
/// milliseconds.
pub const FAST_PUBLIC_TIMEOUT_CAP_MS: u64 = 80;

/// In fast-public mode the worker pool is grown to at least this size.
pub const FAST_PUBLIC_WORKER_FLOOR: usize = 2000;

/// The parameters of one scan run, as handed in by the presentation layer.
#[derive(Clone, Copy, Debug)]
pub struct ScanConfig {
    /// First port of the inclusive range.
    pub start: u16,
    /// Last port of the inclusive range.
    pub end: u16,
    /// Size of the bounded worker pool.
    pub workers: usize,
    /// Base per-attempt connect timeout, in milliseconds.
    pub timeout_ms: u64,
    /// Additional attempts allowed after a timeout (never after a refusal).
    pub retries: usize,
    /// Whether to derive the timeout from probe round trips.
    pub adaptive: bool,
    /// Whether to apply the fast-public overrides.
    pub fast_public: bool,
}

/// The settings a sweep actually runs with, once the adaptive timeout and
/// the fast-public overrides have been applied.
#[derive(Clone, Copy, Debug)]
pub struct EffectiveSettings {
    pub timeout_ms: u64,
    pub workers: usize,
    pub retries: usize,
}

impl ScanConfig {
    /// The timeout a sweep starts from: the probed adaptive value when
    /// probing is in force, the configured base timeout otherwise.
    pub open spec fn chosen_timeout_ms(self, probed_ms: Option<u64>) -> u64 {
        if self.adaptive && !self.fast_public {
            match probed_ms {
                Some(t) => t,
                None => self.timeout_ms,
            }
        } else {
            self.timeout_ms
        }
    }

    /// The effective settings: fast-public mode caps the timeout at 80 ms,
    /// forces the retry budget to zero and floors the worker pool at 2000;
    /// otherwise the configured values stand.
    pub open spec fn effective_spec(self, probed_ms: Option<u64>) -> EffectiveSettings {
        let chosen = self.chosen_timeout_ms(probed_ms);
        if self.fast_public {
            EffectiveSettings {
                timeout_ms: if chosen > FAST_PUBLIC_TIMEOUT_CAP_MS {
                    FAST_PUBLIC_TIMEOUT_CAP_MS
                } else {
                    chosen
                },
                workers: if self.workers < FAST_PUBLIC_WORKER_FLOOR {
                    FAST_PUBLIC_WORKER_FLOOR
                } else {
                    self.workers
                },
                retries: 0,
            }
        } else {
            EffectiveSettings { timeout_ms: chosen, workers: self.workers, retries: self.retries }
        }
    }

    /// Rejects a range whose end lies before its start; nothing else is
    /// checked here and nothing may run before this passes.
    pub fn validate(&self) -> (r: Result<(), ScanError>)
        ensures
            r is Ok <==> self.start <= self.end,
            r matches Err(e) ==> e is InvalidRange,
    {
        if self.end < self.start {
            Err(ScanError::InvalidRange)
        } else {
            Ok(())
        }
    }

    /// Whether the latency prober runs at all: only when adaptive timing is
    /// enabled and fast-public mode is not.
    pub fn wants_probe(&self) -> (p: bool)
        ensures
            p == (self.adaptive && !self.fast_public),
    {
        self.adaptive && !self.fast_public
    }

    /// Applies the adaptive timeout and the fast-public overrides, once,
    /// before any port attempt begins. `probed_ms` is the value the latency
    /// prober derived, where it ran. Fast-public mode always yields a worker
    /// pool of at least 2000, no retries, and a timeout of at most 80 ms.
    pub fn effective_settings(&self, probed_ms: Option<u64>) -> (eff: EffectiveSettings)
        ensures
            eff == self.effective_spec(probed_ms),
            self.fast_public ==> eff.workers >= FAST_PUBLIC_WORKER_FLOOR
                && eff.retries == 0
                && eff.timeout_ms <= FAST_PUBLIC_TIMEOUT_CAP_MS,
    {
        let chosen: u64 = if self.adaptive && !self.fast_public {
            match probed_ms {
                Some(t) => t,
                None => self.timeout_ms,
            }
        } else {
            self.timeout_ms
        };
        if self.fast_public {
            EffectiveSettings {
                timeout_ms: if chosen > FAST_PUBLIC_TIMEOUT_CAP_MS {
                    FAST_PUBLIC_TIMEOUT_CAP_MS
                } else {
                    chosen
                },
                workers: if self.workers < FAST_PUBLIC_WORKER_FLOOR {
                    FAST_PUBLIC_WORKER_FLOOR
                } else {
                    self.workers
                },
                retries: 0,
            }
        } else {
            EffectiveSettings { timeout_ms: chosen, workers: self.workers, retries: self.retries }
        }
    }

    /// How many ports the range holds.
    pub fn port_count(&self) -> (n: u32)
        requires
            self.start <= self.end,
        ensures
            n == self.end - self.start + 1,
    {
        (self.end - self.start) as u32 + 1
    }
}

} // verus!
