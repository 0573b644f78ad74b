//! The per-port result of a scan.

use vstd::prelude::*;

verus! {

/// Whether a port accepted a connection.
#[derive(Clone, Copy, Debug, PartialEq, Eq, Structural)]
pub enum PortStatus {
    Open,
    Closed,
}

/// One record per scanned port: its number, whether it was open, and the
/// banner captured by the best-effort read, if any.
#[derive(Debug)]
pub struct PortOutcome {
    pub port: u16,
    pub status: PortStatus,
    pub banner: Option<String>,
}

impl PortOutcome {
    /// A banner is only ever attached to an open port.
    pub open spec fn wf(self) -> bool {
        self.banner is Some ==> self.status is Open
    }
}

/// An executable banner matches its mathematical counterpart: present exactly
/// when the model says so, and with the same characters.
pub open spec fn banner_matches(banner: Option<String>, model: Option<Seq<char>>) -> bool {
    &&& banner is Some <==> model is Some
    &&& banner matches Some(s) ==> s@ == model->0
}

} // verus!
