//! Hashlock condition: knowledge of a SHA-256 preimage.
use crate::outside::{sha256, sha256_digest};
use vstd::prelude::*;
use vstd::string::StringExecFns;

verus! {

/// A SHA-256 hashlock and the preimage offered to open it.
#[derive(Debug, Clone, PartialEq, Eq)]
pub struct Hashlock {
    /// The expected digest.
    pub hash: [u8; 32],
    /// The offered preimage.
    pub preimage: Vec<u8>,
}

/// Hashlock verification errors.
#[derive(Debug, Clone, Copy, PartialEq, Eq, Structural)]
pub enum Error {
    /// The preimage does not hash to the expected digest.
    PreimageMismatch,
}

impl Error {
    /// The error's message.
    pub open spec fn message_spec(self) -> Seq<char> {
        "preimage does not hash to the expected digest"@
    }

    /// The error's message.
    pub fn message(&self) -> (s: String)
        ensures
            s@ == self.message_spec(),
    {
        String::from_str("preimage does not hash to the expected digest")
    }
}

impl Hashlock {
    /// Succeeds exactly when `sha256(preimage) == hash`.
    pub fn verify(&self) -> (r: Result<(), Error>)
        ensures
            r is Err ==> r == Err::<(), Error>(Error::PreimageMismatch),
            r is Ok <==> sha256(self.preimage@) == self.hash@,
    {
        let digest = sha256_digest(self.preimage.as_slice());
        assert(digest@ == sha256(self.preimage@));
        let mut i: usize = 0;
        while i < 32
            invariant
                i <= 32,
                digest@.len() == 32,
                digest@ == sha256(self.preimage@),
                self.hash@.len() == 32,
                forall|k: int| 0 <= k < i ==> digest@[k] == self.hash@[k],
            decreases 32 - i,
        {
            if digest[i] != self.hash[i] {
                assert(digest@[i as int] != self.hash@[i as int]);
                assert(digest@ != self.hash@);
                return Err(Error::PreimageMismatch);
            }
            i = i + 1;
        }
        assert(digest@ =~= self.hash@);
        Ok(())
    }
}

} // verus!
