//! Permissive decoding of the bytes a banner read returned.
//!
//! Whatever a newly opened connection sends first is kept as opaque text:
//! any bytes at all (even one) become the banner, invalid encoding is
//! replaced rather than rejected, and an empty or failed read yields none.

use vstd::prelude::*;

verus! {

/// What a permissive UTF-8 decode of the given bytes yields.
pub uninterp spec fn lossy_utf8(bytes: Seq<u8>) -> Seq<char>;

/// Relies on `String::from_utf8_lossy`: the decode never fails, replaces
/// invalid sequences, and is a pure function of the bytes alone.
#[verifier::external_body]
fn decode_lossy(bytes: &[u8]) -> (s: String)
    ensures
        s@ == lossy_utf8(bytes@),
{
    String::from_utf8_lossy(bytes).into_owned()
}

/// The bytes handed back by the bounded banner read, as a mathematical value:
/// `None` when the read failed or timed out, `Some` with what it returned
/// otherwise (possibly nothing).
pub open spec fn read_view(read: Option<Vec<u8>>) -> Option<Seq<u8>> {
    match read {
        Some(bytes) => Some(bytes@),
        None => None,
    }
}

/// The banner a read yields: only a successful read of at least one byte
/// produces one, and then it is the permissive decode of those bytes.
pub open spec fn banner_model(read: Option<Seq<u8>>) -> Option<Seq<char>> {
    match read {
        Some(bytes) => if bytes.len() > 0 {
            Some(lossy_utf8(bytes))
        } else {
            None
        },
        None => None,
    }
}

/// Turns the result of the bounded banner read into the banner kept in the
/// port's outcome.
pub fn banner_from_read(read: &Option<Vec<u8>>) -> (banner: Option<String>)
    ensures
        crate::outcome::banner_matches(banner, banner_model(read_view(*read))),
{
    match read {
        Some(bytes) => {
            if bytes.len() > 0 {
                Some(decode_lossy(bytes.as_slice()))
            } else {
                None
            }
        },
        None => None,
    }
}

} // verus!
