//! Ed25519 signature condition.
use crate::outside::{ed25519_accepts, ed25519_verify};
use vstd::prelude::*;
use vstd::string::StringExecFns;

verus! {

/// An Ed25519 public key, message and signature.
#[derive(Debug, Clone, PartialEq, Eq)]
pub struct Ed25519 {
    /// The encoded public key.
    pub public_key: [u8; 32],
    /// The signed message.
    pub message: Vec<u8>,
    /// The signature.
    pub signature: Vec<u8>,
}

/// Ed25519 verification errors.
#[derive(Debug, Clone, Copy, PartialEq, Eq, Structural)]
pub enum Error {
    /// The signature is not 64 bytes long.
    SignatureLength,
    /// The signature does not verify under the key.
    InvalidSignature,
}

impl Error {
    /// The error's message.
    pub open spec fn message_spec(self) -> Seq<char> {
        match self {
            Error::SignatureLength => "signature must be 64 bytes"@,
            Error::InvalidSignature => "signature does not verify"@,
        }
    }

    /// The error's message.
    pub fn message(&self) -> (s: String)
        ensures
            s@ == self.message_spec(),
    {
        match self {
            Error::SignatureLength => String::from_str("signature must be 64 bytes"),
            Error::InvalidSignature => String::from_str("signature does not verify"),
        }
    }
}

impl Ed25519 {
    /// Succeeds exactly when the signature is 64 bytes and verifies.
    pub fn verify(&self) -> (r: Result<(), Error>)
        ensures
            r is Ok <==> self.signature@.len() == 64 && ed25519_accepts(
                self.public_key@,
                self.message@,
                self.signature@,
            ),
            r is Err ==> r == Err::<(), Error>(
                if self.signature@.len() != 64 {
                    Error::SignatureLength
                } else {
                    Error::InvalidSignature
                },
            ),
    {
        if self.signature.len() != 64 {
            return Err(Error::SignatureLength);
        }
        let mut sig = [0u8; 64];
        let mut i: usize = 0;
        while i < 64
            invariant
                i <= 64,
                self.signature@.len() == 64,
                sig@.len() == 64,
                forall|k: int| 0 <= k < i ==> sig@[k] == self.signature@[k],
            decreases 64 - i,
        {
            sig[i] = self.signature[i];
            i = i + 1;
        }
        assert(sig@ =~= self.signature@);
        if ed25519_verify(&self.public_key, self.message.as_slice(), &sig) {
            Ok(())
        } else {
            Err(Error::InvalidSignature)
        }
    }
}

} // verus!
