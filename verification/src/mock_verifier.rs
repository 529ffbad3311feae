//! Test-only stand-in for the verifier router: it accepts a proof by a marker
//! byte in the seal instead of a pairing check. It must never be deployed to a
//! live cluster.
use vstd::prelude::*;

verus! {

/// Mock verifier error codes.
#[derive(Debug, Clone, Copy, PartialEq, Eq, Structural)]
pub enum MockError {
    /// The supplied seal did not carry the success marker.
    Rejected,
}

/// Accepts exactly when `seal` begins with the success marker `1`; the image
/// id and journal digest are not examined.
pub fn verify(seal: &[u8], image_id: [u8; 32], journal_digest: [u8; 32]) -> (r: Result<(), MockError>)
    ensures
        r is Ok <==> seal@.len() > 0 && seal@[0] == 1,
{
    if seal.len() > 0 && seal[0] == 1 {
        Ok(())
    } else {
        Err(MockError::Rejected)
    }
}

} // verus!
