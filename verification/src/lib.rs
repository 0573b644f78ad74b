//! Core of a bounded-concurrency TCP port scanner.
//!
//! The library holds the decision logic of the scanner: configuration
//! validation and the fast-public overrides, the adaptive timeout derived
//! from probe samples, the per-port attempt state machine (retry on timeout,
//! never on refusal), the fallback probe of well-known ports, and the
//! aggregation of outcomes into a result sorted by port. The surrounding
//! process — name resolution, the socket calls themselves, and output
//! formatting — is a thin unverified layer that feeds events to and consumes
//! outcomes from this crate.

pub mod adaptive;
pub mod aggregate;
pub mod banner;
pub mod config;
pub mod engine;
pub mod error;
pub mod outcome;
pub mod resolve;
pub mod scan;
