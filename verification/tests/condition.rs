use sha2::Digest;
use zescrow::condition::threshold::{Error as ThresholdError, Threshold};
use zescrow::condition::Condition;
use zescrow::e2e::{
    escrow_conditions, native_asset, pinned_image_id, satisfied_ed25519, satisfied_hashlock,
    satisfied_nested_threshold, satisfied_secp256k1, satisfied_threshold, unsatisfied_hashlock,
};
use zescrow::error::ConditionError;
use zescrow::mock_verifier::{verify, MockError};

#[test]
fn hashlock_verifies_preimage() {
    let preimage = b"zkEscrow".to_vec();
    let hash: [u8; 32] = sha2::Sha256::digest(&preimage).into();
    assert!(Condition::hashlock(hash, preimage).verify().is_ok());
    assert!(matches!(
        unsatisfied_hashlock().verify(),
        Err(ConditionError::Hashlock(_))
    ));
}

#[test]
fn fixtures_hold() {
    assert!(satisfied_hashlock().verify().is_ok());
    assert!(satisfied_ed25519().verify().is_ok());
    assert!(satisfied_secp256k1().verify().is_ok());
    assert!(satisfied_threshold().verify().is_ok());
    assert!(satisfied_nested_threshold().verify().is_ok());
    let all = escrow_conditions();
    assert_eq!(all.len(), 5);
    assert_eq!(all[4].name, "nested-threshold");
    assert!(all.iter().all(|c| c.condition.verify().is_ok()));
}

#[test]
fn tampered_signatures_fail() {
    if let Condition::Ed25519(mut e) = satisfied_ed25519() {
        e.message.push(0);
        assert!(Condition::Ed25519(e).verify().is_err());
    }
    if let Condition::Ed25519(mut e) = satisfied_ed25519() {
        e.signature.pop();
        assert!(matches!(
            Condition::Ed25519(e).verify(),
            Err(ConditionError::Ed25519(_))
        ));
    }
    if let Condition::Secp256k1(mut s) = satisfied_secp256k1() {
        s.message[0] ^= 1;
        assert!(Condition::Secp256k1(s).verify().is_err());
    }
}

#[test]
fn threshold_errors() {
    let zero = Threshold { threshold: 0, subconditions: vec![satisfied_hashlock()] };
    assert_eq!(zero.verify(), Err(ThresholdError::ZeroThreshold));
    let too_many = Threshold { threshold: 3, subconditions: vec![satisfied_hashlock()] };
    assert_eq!(
        too_many.verify(),
        Err(ThresholdError::ThresholdUnsatisfiable { required: 3, available: 1 })
    );
    let unmet = Threshold {
        threshold: 2,
        subconditions: vec![satisfied_hashlock(), unsatisfied_hashlock()],
    };
    assert_eq!(unmet.count_satisfied(), 1);
    assert_eq!(
        unmet.verify(),
        Err(ThresholdError::ThresholdNotMet { required: 2, satisfied: 1 })
    );
    assert!(matches!(
        Condition::Threshold(unmet).verify(),
        Err(ConditionError::Threshold(ThresholdError::ThresholdNotMet { .. }))
    ));
}

#[test]
fn image_id_words_are_big_endian() {
    let words = [0x0102_0304u32, 0, 0, 0, 0, 0, 0, 0xa0b0_c0d0];
    let bytes = pinned_image_id(words);
    assert_eq!(&bytes[..4], &[1, 2, 3, 4]);
    assert_eq!(&bytes[28..], &[0xa0, 0xb0, 0xc0, 0xd0]);
}

#[test]
fn native_asset_amount() {
    let asset = native_asset(1_000_000);
    assert!(asset.validate().is_ok());
    assert_eq!(asset.format_amount(), "1000000");
}

#[test]
fn mock_verifier_marker() {
    assert_eq!(verify(&[1], [0u8; 32], [0u8; 32]), Ok(()));
    assert_eq!(verify(&[0, 1], [0u8; 32], [0u8; 32]), Err(MockError::Rejected));
    assert_eq!(verify(&[], [0u8; 32], [0u8; 32]), Err(MockError::Rejected));
}

#[test]
fn threshold_fixture_is_one_good_and_one_bad_hashlock() {
    let expected = Condition::threshold(1, vec![satisfied_hashlock(), unsatisfied_hashlock()]);
    assert_eq!(satisfied_threshold(), expected);
    match satisfied_threshold() {
        Condition::Threshold(t) => {
            assert!(t.subconditions[0].verify().is_ok());
            assert!(t.subconditions[1].verify().is_err());
        }
        _ => panic!("not a threshold"),
    }
}

#[test]
fn met_threshold_stays_met() {
    // Adding a subcondition anywhere.
    let more = Threshold {
        threshold: 1,
        subconditions: vec![unsatisfied_hashlock(), satisfied_hashlock(), unsatisfied_hashlock()],
    };
    assert!(more.verify().is_ok());
    // Lowering the threshold.
    let two = Threshold {
        threshold: 2,
        subconditions: vec![satisfied_hashlock(), satisfied_hashlock(), unsatisfied_hashlock()],
    };
    assert!(two.verify().is_ok());
    let one = Threshold {
        threshold: 1,
        subconditions: vec![satisfied_hashlock(), satisfied_hashlock(), unsatisfied_hashlock()],
    };
    assert!(one.verify().is_ok());
    // Reordering.
    let reordered = Threshold {
        threshold: 2,
        subconditions: vec![unsatisfied_hashlock(), satisfied_hashlock(), satisfied_hashlock()],
    };
    assert!(reordered.verify().is_ok());
}
