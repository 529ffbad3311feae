//! ECDSA/secp256k1 signature condition.
use crate::outside::{secp256k1_accepts, secp256k1_verify};
use vstd::prelude::*;
use vstd::string::StringExecFns;

verus! {

/// A SEC1-encoded secp256k1 public key, message and DER signature.
#[derive(Debug, Clone, PartialEq, Eq)]
pub struct Secp256k1 {
    /// The SEC1-encoded public key.
    pub public_key: Vec<u8>,
    /// The signed message.
    pub message: Vec<u8>,
    /// The DER-encoded signature.
    pub signature: Vec<u8>,
}

/// Secp256k1 verification errors.
#[derive(Debug, Clone, Copy, PartialEq, Eq, Structural)]
pub enum Error {
    /// The key or signature does not decode, or the signature does not verify.
    InvalidSignature,
}

impl Error {
    /// The error's message.
    pub open spec fn message_spec(self) -> Seq<char> {
        "signature does not verify"@
    }

    /// The error's message.
    pub fn message(&self) -> (s: String)
        ensures
            s@ == self.message_spec(),
    {
        String::from_str("signature does not verify")
    }
}

impl Secp256k1 {
    /// Succeeds exactly when the signature verifies under the key.
    pub fn verify(&self) -> (r: Result<(), Error>)
        ensures
            r is Err ==> r == Err::<(), Error>(Error::InvalidSignature),
            r is Ok <==> secp256k1_accepts(self.public_key@, self.message@, self.signature@),
    {
        if secp256k1_verify(self.public_key.as_slice(), self.message.as_slice(), self.signature.as_slice()) {
            Ok(())
        } else {
            Err(Error::InvalidSignature)
        }
    }
}

} // verus!
