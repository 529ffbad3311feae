//! Fixtures for end-to-end settlement runs: conditions that do and do not
//! hold, the seals the mock verifier accepts and rejects, and the pinned image
//! id in the byte form the on-chain programs store.
use crate::asset::Asset;
use crate::be::be_bytes;
use crate::bignum::BigNumber;
use crate::client::ReleaseProof;
use crate::condition::hashlock::Hashlock;
use crate::condition::{count_holding, Condition};
use crate::outside::{ed25519_sign_fresh, secp256k1_sign_fresh, sha256, sha256_digest};
use vstd::prelude::*;
use vstd::slice::slice_to_vec;
use vstd::string::StringSliceAdditionalSpecFns;

verus! {

/// The seal marker byte the Solana mock verifier accepts.
pub const SOLANA_ACCEPT_SEAL: u8 = 1;

/// The message the signature fixtures sign.
pub const SIGNED_MESSAGE: &'static str = "zescrow-e2e-harness";

/// A condition with a name for reporting.
#[derive(Debug)]
pub struct NamedCondition {
    /// Name of the fixture.
    pub name: &'static str,
    /// The condition.
    pub condition: Condition,
}

/// The hashlock of [`satisfied_hashlock`]: the digest of its preimage, and
/// that preimage.
pub open spec fn is_satisfied_hashlock(c: Condition) -> bool {
    c matches Condition::Hashlock(h) && h.preimage@ == "zescrow-e2e-preimage".spec_bytes() && h.hash@
        == sha256("zescrow-e2e-preimage".spec_bytes())
}

/// The hashlock of [`unsatisfied_hashlock`].
pub open spec fn is_unsatisfied_hashlock(c: Condition) -> bool {
    c matches Condition::Hashlock(h) && h.hash@ == Seq::new(32, |i: int| 0u8) && h.preimage@
        == "wrong-preimage".spec_bytes()
}

/// The condition of [`satisfied_threshold`]: one of the two hashlocks above.
pub open spec fn is_threshold_fixture(c: Condition) -> bool {
    c matches Condition::Threshold(t) && t.threshold == 1 && t.subconditions@.len() == 2
        && is_satisfied_hashlock(t.subconditions@[0]) && is_unsatisfied_hashlock(t.subconditions@[1])
}

/// A hashlock opened with the right preimage.
pub fn satisfied_hashlock() -> (c: Condition)
    ensures
        c.holds(),
        is_satisfied_hashlock(c),
{
    let preimage = slice_to_vec("zescrow-e2e-preimage".as_bytes());
    let hash = sha256_digest(preimage.as_slice());
    Condition::hashlock(hash, preimage)
}

/// A hashlock on the all-zero digest, offered a preimage that does not hash to it.
pub fn unsatisfied_hashlock() -> (c: Condition)
    ensures
        is_unsatisfied_hashlock(c),
{
    let preimage = slice_to_vec("wrong-preimage".as_bytes());
    let c = Condition::hashlock([0u8; 32], preimage);
    proof {
        assert(c->Hashlock_0.hash@ =~= Seq::new(32, |i: int| 0u8));
    }
    c
}

/// An Ed25519 signature of [`SIGNED_MESSAGE`] by a fresh key.
pub fn satisfied_ed25519() -> (c: Condition)
    ensures
        c.holds(),
        c matches Condition::Ed25519(e) && e.message@ == SIGNED_MESSAGE.spec_bytes(),
{
    let message = slice_to_vec(SIGNED_MESSAGE.as_bytes());
    let (public_key, signature) = ed25519_sign_fresh(message.as_slice());
    Condition::ed25519(public_key, message, slice_to_vec(&signature))
}

/// A secp256k1 signature of [`SIGNED_MESSAGE`] by a fresh key (uncompressed
/// SEC1 key, DER signature).
pub fn satisfied_secp256k1() -> (c: Condition)
    ensures
        c.holds(),
        c matches Condition::Secp256k1(e) && e.message@ == SIGNED_MESSAGE.spec_bytes(),
{
    let message = slice_to_vec(SIGNED_MESSAGE.as_bytes());
    let (public_key, signature) = secp256k1_sign_fresh(message.as_slice());
    Condition::secp256k1(public_key, message, signature)
}

/// One of a satisfied and an unsatisfied hashlock.
pub fn satisfied_threshold() -> (c: Condition)
    ensures
        c.holds(),
        is_threshold_fixture(c),
{
    let good = satisfied_hashlock();
    let bad = unsatisfied_hashlock();
    let ghost g = good;
    let mut subconditions: Vec<Condition> = Vec::new();
    subconditions.push(good);
    subconditions.push(bad);
    let c = Condition::threshold(1, subconditions);
    proof {
        let s = c->Threshold_0.subconditions@;
        assert(s[0] == g);
        let one = s.drop_last();
        assert(one.drop_last() =~= Seq::<Condition>::empty());
        assert(count_holding(one.drop_last()) == 0);
        assert(one.last() == g);
        assert(count_holding(one) == 1);
        assert(count_holding(s) >= 1);
    }
    c
}

/// A threshold of one over [`satisfied_threshold`].
pub fn satisfied_nested_threshold() -> (c: Condition)
    ensures
        c.holds(),
        c matches Condition::Threshold(t) && t.threshold == 1 && t.subconditions@.len() == 1
            && is_threshold_fixture(t.subconditions@[0]),
{
    let inner = satisfied_threshold();
    let ghost g = inner;
    let mut subconditions: Vec<Condition> = Vec::new();
    subconditions.push(inner);
    let c = Condition::threshold(1, subconditions);
    proof {
        let s = c->Threshold_0.subconditions@;
        assert(s.drop_last() =~= Seq::<Condition>::empty());
        assert(count_holding(s.drop_last()) == 0);
        assert(s.last() == g);
        assert(count_holding(s) == 1);
    }
    c
}

/// One satisfied condition of each kind, with their names.
pub fn escrow_conditions() -> (v: Vec<NamedCondition>)
    ensures
        v@.len() == 5,
        forall|i: int| 0 <= i < 5 ==> (#[trigger] v@[i]).condition.holds(),
        v@[0].name@ == "hashlock"@ && is_satisfied_hashlock(v@[0].condition),
        v@[1].name@ == "ed25519"@ && v@[1].condition is Ed25519,
        v@[2].name@ == "secp256k1"@ && v@[2].condition is Secp256k1,
        v@[3].name@ == "threshold"@ && is_threshold_fixture(v@[3].condition),
        v@[4].name@ == "nested-threshold"@ && v@[4].condition is Threshold,
{
    vec![
        NamedCondition { name: "hashlock", condition: satisfied_hashlock() },
        NamedCondition { name: "ed25519", condition: satisfied_ed25519() },
        NamedCondition { name: "secp256k1", condition: satisfied_secp256k1() },
        NamedCondition { name: "threshold", condition: satisfied_threshold() },
        NamedCondition { name: "nested-threshold", condition: satisfied_nested_threshold() },
    ]
}

/// A native-coin asset of `amount`.
pub fn native_asset(amount: u128) -> (a: Asset)
    ensures
        a.kind == crate::asset::AssetKind::Native,
        a.agent_id is None,
        a.amount@ == amount as nat,
        a.decimals is None,
{
    Asset::native(BigNumber::from_u128(amount))
}

/// A guest image id, given as eight `u32` words, in the 32 big-endian bytes
/// the on-chain verifiers pin.
pub fn pinned_image_id(words: [u32; 8]) -> (out: [u8; 32])
    ensures
        forall|i: int|
            0 <= i < 8 ==> #[trigger] out@.subrange(4 * i, 4 * i + 4) == be_bytes(
                words@[i] as nat,
                4,
            ),
{
    let mut out = [0u8; 32];
    let mut i: usize = 0;
    while i < 8
        invariant
            i <= 8,
            out@.len() == 32,
            forall|k: int|
                0 <= k < i ==> #[trigger] out@.subrange(4 * k, 4 * k + 4) == be_bytes(
                    words@[k] as nat,
                    4,
                ),
        decreases 8 - i,
    {
        let w = words[i];
        let ghost prev = out@;
        out[4 * i] = (w / 0x100_0000) as u8;
        out[4 * i + 1] = (w / 0x1_0000 % 256) as u8;
        out[4 * i + 2] = (w / 0x100 % 256) as u8;
        out[4 * i + 3] = (w % 256) as u8;
        proof {
            reveal_with_fuel(be_bytes, 5);
            assert forall|k: int| 0 <= k < i implies #[trigger] out@.subrange(4 * k, 4 * k + 4)
                == be_bytes(words@[k] as nat, 4) by {
                assert(out@.subrange(4 * k, 4 * k + 4) =~= prev.subrange(4 * k, 4 * k + 4));
            }
            let v = w as nat;
            assert((v / 256 / 256 / 256) == v / 0x100_0000) by {
                vstd::arithmetic::div_mod::lemma_div_denominator(v as int, 256, 256);
                vstd::arithmetic::div_mod::lemma_div_denominator(v as int, 0x1_0000, 256);
            }
            assert((v / 256 / 256) == v / 0x1_0000) by {
                vstd::arithmetic::div_mod::lemma_div_denominator(v as int, 256, 256);
            }
            assert(v / 0x100_0000 < 256);
            assert(out@.subrange(4 * i, 4 * i + 4) =~= be_bytes(v, 4));
        }
        i = i + 1;
    }
    out
}

/// The Solana form of a release proof: the journal as proven, with the seal
/// replaced by the marker the mock verifier accepts (the real seal is checked
/// by a real-proof run).
pub fn solana_release_proof(proven: ReleaseProof) -> (p: ReleaseProof)
    ensures
        p.seal@ == seq![SOLANA_ACCEPT_SEAL],
        p.journal@ == proven.journal@,
{
    let seal = vec![SOLANA_ACCEPT_SEAL];
    assert(seal@ =~= seq![SOLANA_ACCEPT_SEAL]);
    ReleaseProof { seal, journal: proven.journal }
}

/// The Borsh form of a one-byte seal that the mock verifier accepts: a
/// four-byte little-endian length, then the marker `1`.
pub fn accepting_seal() -> (s: Vec<u8>)
    ensures
        s@ == seq![1u8, 0, 0, 0, 1],
{
    let s = vec![1u8, 0, 0, 0, 1];
    assert(s@ =~= seq![1u8, 0, 0, 0, 1]);
    s
}

/// The Borsh form of a one-byte seal that the mock verifier rejects.
pub fn rejecting_seal() -> (s: Vec<u8>)
    ensures
        s@ == seq![1u8, 0, 0, 0, 0],
{
    let s = vec![1u8, 0, 0, 0, 0];
    assert(s@ =~= seq![1u8, 0, 0, 0, 0]);
    s
}

} // verus!
