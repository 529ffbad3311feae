//! Release conditions: cryptographic checks an escrow must pass before release.
use crate::error::ConditionError;
use crate::outside::{ed25519_accepts, secp256k1_accepts, sha256};
use vstd::prelude::*;

pub mod ed25519;
pub mod hashlock;
pub mod secp256k1;
pub mod threshold;

use ed25519::Ed25519;
use hashlock::Hashlock;
use secp256k1::Secp256k1;
use threshold::Threshold;

verus! {

/// A release condition.
#[derive(Debug, PartialEq, Eq)]
pub enum Condition {
    /// Knowledge of a SHA-256 preimage.
    Hashlock(Hashlock),
    /// An Ed25519 signature over a message.
    Ed25519(Ed25519),
    /// An ECDSA/secp256k1 signature over a message.
    Secp256k1(Secp256k1),
    /// At least `threshold` of several subconditions.
    Threshold(Threshold),
}

impl Condition {
    /// Whether the condition is satisfied.
    pub open spec fn holds(self) -> bool
        decreases self,
    {
        match self {
            Condition::Hashlock(h) => sha256(h.preimage@) == h.hash@,
            Condition::Ed25519(e) => e.signature@.len() == 64 && ed25519_accepts(
                e.public_key@,
                e.message@,
                e.signature@,
            ),
            Condition::Secp256k1(s) => secp256k1_accepts(s.public_key@, s.message@, s.signature@),
            Condition::Threshold(t) => 0 < t.threshold <= t.subconditions@.len() && count_holding(
                t.subconditions@,
            ) >= t.threshold,
        }
    }

    /// A hashlock on `hash`, opened with `preimage`.
    pub fn hashlock(hash: [u8; 32], preimage: Vec<u8>) -> (c: Condition)
        ensures
            c == Condition::Hashlock(Hashlock { hash, preimage }),
    {
        Condition::Hashlock(Hashlock { hash, preimage })
    }

    /// An Ed25519 signature of `message` under `public_key`.
    pub fn ed25519(public_key: [u8; 32], message: Vec<u8>, signature: Vec<u8>) -> (c: Condition)
        ensures
            c == Condition::Ed25519(Ed25519 { public_key, message, signature }),
    {
        Condition::Ed25519(Ed25519 { public_key, message, signature })
    }

    /// An ECDSA/secp256k1 signature of `message` under `public_key`.
    pub fn secp256k1(public_key: Vec<u8>, message: Vec<u8>, signature: Vec<u8>) -> (c: Condition)
        ensures
            c == Condition::Secp256k1(Secp256k1 { public_key, message, signature }),
    {
        Condition::Secp256k1(Secp256k1 { public_key, message, signature })
    }

    /// At least `threshold` of `subconditions`.
    pub fn threshold(threshold: usize, subconditions: Vec<Condition>) -> (c: Condition)
        ensures
            c == Condition::Threshold(Threshold { threshold, subconditions }),
    {
        Condition::Threshold(Threshold { threshold, subconditions })
    }

    /// Verifies the condition; fails exactly when it does not hold, with the
    /// error of its kind.
    pub fn verify(&self) -> (r: Result<(), ConditionError>)
        ensures
            r is Ok <==> self.holds(),
            r matches Err(e) ==> match self {
                Condition::Hashlock(_) => e == ConditionError::Hashlock(
                    hashlock::Error::PreimageMismatch,
                ),
                Condition::Ed25519(s) => e == ConditionError::Ed25519(
                    if s.signature@.len() != 64 {
                        ed25519::Error::SignatureLength
                    } else {
                        ed25519::Error::InvalidSignature
                    },
                ),
                Condition::Secp256k1(_) => e == ConditionError::Secp256k1(
                    secp256k1::Error::InvalidSignature,
                ),
                Condition::Threshold(t) => e == ConditionError::Threshold(
                    t.verify_error_spec(),
                ),
            },
        decreases self, 0nat,
    {
        match self {
            Condition::Hashlock(h) => match h.verify() {
                Ok(()) => Ok(()),
                Err(e) => Err(ConditionError::Hashlock(e)),
            },
            Condition::Ed25519(e) => match e.verify() {
                Ok(()) => Ok(()),
                Err(err) => Err(ConditionError::Ed25519(err)),
            },
            Condition::Secp256k1(s) => match s.verify() {
                Ok(()) => Ok(()),
                Err(e) => Err(ConditionError::Secp256k1(e)),
            },
            Condition::Threshold(t) => match t.verify() {
                Ok(()) => Ok(()),
                Err(e) => Err(ConditionError::Threshold(e)),
            },
        }
    }
}

/// How many conditions of `s` hold.
pub open spec fn count_holding(s: Seq<Condition>) -> nat
    decreases s,
{
    if s.len() == 0 {
        0
    } else {
        count_holding(s.drop_last()) + if s.last().holds() {
            1nat
        } else {
            0nat
        }
    }
}

/// Taking the `i`-th condition out of `s` lowers the count by one exactly
/// when that condition holds.
pub proof fn lemma_count_holding_remove(s: Seq<Condition>, i: int)
    requires
        0 <= i < s.len(),
    ensures
        count_holding(s) == count_holding(s.remove(i)) + if s[i].holds() {
            1nat
        } else {
            0nat
        },
    decreases s.len(),
{
    if i == s.len() - 1 {
        assert(s.remove(i) =~= s.drop_last());
    } else {
        assert(s.remove(i).drop_last() =~= s.drop_last().remove(i));
        assert(s.remove(i).last() == s.last());
        lemma_count_holding_remove(s.drop_last(), i);
    }
}

/// The count of holding conditions does not depend on their order.
pub proof fn lemma_count_holding_permutation(a: Seq<Condition>, b: Seq<Condition>)
    requires
        a.to_multiset() == b.to_multiset(),
    ensures
        count_holding(a) == count_holding(b),
    decreases a.len(),
{
    broadcast use vstd::seq_lib::group_to_multiset_ensures;

    if a.len() == 0 {
        assert(b.to_multiset().len() == 0);
        assert(b.len() == 0);
    } else {
        let x = a.last();
        let rest = a.drop_last();
        assert(rest.push(x) =~= a);
        assert(a.to_multiset() == rest.to_multiset().insert(x));
        assert(b.to_multiset().count(x) > 0);
        assert(b.contains(x));
        let i = choose|i: int| 0 <= i < b.len() && b[i] == x;
        assert(b.remove(i).to_multiset() == b.to_multiset().remove(x));
        assert(rest.to_multiset() =~= b.remove(i).to_multiset());
        lemma_count_holding_permutation(rest, b.remove(i));
        lemma_count_holding_remove(b, i);
    }
}

/// A met threshold stays met when a subcondition is added anywhere.
pub proof fn lemma_threshold_add_subcondition(met: Threshold, more: Threshold, i: int)
    requires
        Condition::Threshold(met).holds(),
        more.threshold == met.threshold,
        0 <= i < more.subconditions@.len(),
        more.subconditions@.remove(i) == met.subconditions@,
    ensures
        Condition::Threshold(more).holds(),
{
    lemma_count_holding_remove(more.subconditions@, i);
}

/// A met threshold stays met when the threshold is lowered (but not to zero).
pub proof fn lemma_threshold_lowered(met: Threshold, lower: Threshold)
    requires
        Condition::Threshold(met).holds(),
        lower.subconditions@ == met.subconditions@,
        0 < lower.threshold <= met.threshold,
    ensures
        Condition::Threshold(lower).holds(),
{
}

/// Whether a threshold is met does not depend on the order of its
/// subconditions.
pub proof fn lemma_threshold_reordered(a: Threshold, b: Threshold)
    requires
        a.threshold == b.threshold,
        a.subconditions@.to_multiset() == b.subconditions@.to_multiset(),
    ensures
        Condition::Threshold(a).holds() == Condition::Threshold(b).holds(),
{
    broadcast use vstd::seq_lib::group_to_multiset_ensures;

    lemma_count_holding_permutation(a.subconditions@, b.subconditions@);
    assert(a.subconditions@.len() == a.subconditions@.to_multiset().len());
    assert(b.subconditions@.len() == b.subconditions@.to_multiset().len());
}

} // verus!
