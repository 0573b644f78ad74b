//! Choosing the scan target from what name resolution returned.
//!
//! Resolution itself is socket work done by the surrounding layer, which
//! hands in the addresses in resolver-returned order; the target is the
//! first of them, and an empty answer is a fatal resolution error.

use vstd::prelude::*;
use crate::error::ScanError;

verus! {

/// Picks the scan target: the first address, in resolver-returned order —
/// no preference sorting. Yields the resolution error exactly when there is
/// none.
pub fn first_address(addrs: Vec<String>) -> (r: Result<String, ScanError>)
    ensures
        r is Ok <==> addrs@.len() > 0,
        r matches Ok(ip) ==> ip@ == addrs@[0]@,
        r matches Err(e) ==> e is ResolveFailed,
{
    let mut rest = addrs;
    if rest.len() == 0 {
        Err(ScanError::ResolveFailed)
    } else {
        Ok(rest.remove(0))
    }
}

} // verus!
