use sha2::Digest;
use zescrow::asset::AssetKind;
use zescrow::bignum::BigNumber;
use zescrow::commitment::{ExecutionResult, PublicCommitment};
use zescrow::error::{CommitmentError, TagField};
use zescrow::interface::{Chain, ExecutionState};
use zescrow::prover::{attested_commitment, ProverError};

fn address(s: &str) -> Vec<u8> {
    hex::decode(s.trim_start_matches("0x")).unwrap()
}

fn sample(condition: [u8; 32], outcome: ExecutionResult) -> PublicCommitment {
    PublicCommitment {
        chain: Chain::Ethereum,
        agent_id: address("0x00000000000000000000000000000000DeaDBeef"),
        escrow_id: 42,
        sender: address("0xd8dA6BF26964aF9D7eEd9e03E53415D37aA96045"),
        recipient: address("0xEA674fdDe714fd979de3EdF0F56AA9716B898ec8"),
        asset_kind: AssetKind::Native,
        asset_token: Vec::new(),
        amount: BigNumber::from_u64(1_000_000_000),
        condition,
        outcome,
    }
}

#[test]
fn journal_roundtrip_success() {
    let commitment = sample(
        [0u8; 32],
        ExecutionResult::Success(ExecutionState::ConditionsMet),
    );
    let bytes = commitment.to_journal_bytes().unwrap();
    let decoded = PublicCommitment::from_journal_bytes(&bytes).unwrap();
    assert_eq!(decoded, commitment);
    assert_eq!(decoded.escrow_id, 42);
    assert_eq!(decoded.amount, BigNumber::from_u64(1_000_000_000));
}

#[test]
fn journal_roundtrip_failure_and_condition() {
    let condition: [u8; 32] = sha2::Sha256::digest(b"zkEscrow").into();
    let commitment = sample(condition, ExecutionResult::Failure);
    let bytes = commitment.to_journal_bytes().unwrap();
    let decoded = PublicCommitment::from_journal_bytes(&bytes).unwrap();
    assert_eq!(decoded, commitment);
    assert_eq!(decoded.outcome, ExecutionResult::Failure);
    assert!(decoded.condition != [0u8; 32]);
}

#[test]
fn public_commitment_journal_encodes_and_decodes() {
    let outcome = ExecutionResult::Success(ExecutionState::ConditionsMet);
    let mut commitment = sample([0u8; 32], outcome);
    commitment.escrow_id = 7;
    let bytes = commitment.to_journal_bytes().expect("encode journal");
    let decoded = PublicCommitment::from_journal_bytes(&bytes).expect("decode journal");
    assert_eq!(decoded, commitment);
    assert_eq!(decoded.escrow_id, 7);
    assert_eq!(decoded.outcome, outcome);
}

#[test]
fn digest_matches_sha256_of_journal() {
    let commitment = sample(
        [0u8; 32],
        ExecutionResult::Success(ExecutionState::ConditionsMet),
    );
    let bytes = commitment.to_journal_bytes().unwrap();
    let expected: [u8; 32] = sha2::Sha256::digest(&bytes).into();
    assert_eq!(commitment.digest().unwrap(), expected);
}

#[test]
fn truncated_journal_is_rejected() {
    let commitment = sample(
        [0u8; 32],
        ExecutionResult::Success(ExecutionState::ConditionsMet),
    );
    let bytes = commitment.to_journal_bytes().unwrap();
    assert!(PublicCommitment::from_journal_bytes(&bytes[..bytes.len() - 1]).is_err());
}

#[test]
fn trailing_bytes_are_rejected() {
    let commitment = sample(
        [0u8; 32],
        ExecutionResult::Success(ExecutionState::ConditionsMet),
    );
    let mut bytes = commitment.to_journal_bytes().unwrap();
    bytes.push(0);
    assert!(PublicCommitment::from_journal_bytes(&bytes).is_err());
}

#[test]
fn unknown_version_is_rejected() {
    let commitment = sample(
        [0u8; 32],
        ExecutionResult::Success(ExecutionState::ConditionsMet),
    );
    let mut bytes = commitment.to_journal_bytes().unwrap();
    bytes[0] = 0xFF;
    assert!(matches!(
        PublicCommitment::from_journal_bytes(&bytes),
        Err(CommitmentError::UnknownVersion(0xFF))
    ));
}

#[test]
fn journal_layout_is_exact() {
    let commitment = sample(
        [9u8; 32],
        ExecutionResult::Success(ExecutionState::ConditionsMet),
    );
    let bytes = commitment.to_journal_bytes().unwrap();
    let mut expected = vec![1u8, 0, 1, 2, 0, 20];
    expected.extend_from_slice(&commitment.agent_id);
    expected.extend_from_slice(&42u64.to_be_bytes());
    expected.extend_from_slice(&[0, 20]);
    expected.extend_from_slice(&commitment.sender);
    expected.extend_from_slice(&[0, 20]);
    expected.extend_from_slice(&commitment.recipient);
    expected.extend_from_slice(&[0, 0, 0]);
    let mut amount = [0u8; 32];
    amount[24..].copy_from_slice(&1_000_000_000u64.to_be_bytes());
    expected.extend_from_slice(&amount);
    expected.extend_from_slice(&[9u8; 32]);
    assert_eq!(bytes, expected);
}

#[test]
fn errors_name_the_failing_field() {
    let commitment = sample([0u8; 32], ExecutionResult::Failure);
    let bytes = commitment.to_journal_bytes().unwrap();
    let mut bad_chain = bytes.clone();
    bad_chain[1] = 7;
    assert_eq!(
        PublicCommitment::from_journal_bytes(&bad_chain),
        Err(CommitmentError::UnknownTag { field: TagField::Chain, tag: 7 })
    );
    let mut bad_outcome = bytes.clone();
    bad_outcome[2] = 3;
    assert_eq!(
        PublicCommitment::from_journal_bytes(&bad_outcome),
        Err(CommitmentError::UnknownTag { field: TagField::Outcome, tag: 3 })
    );
    assert_eq!(TagField::Outcome.as_str(), "outcome");
    assert_eq!(
        PublicCommitment::from_journal_bytes(&bytes[..2]),
        Err(CommitmentError::Truncated(2))
    );
    assert_eq!(PublicCommitment::from_journal_bytes(&[]), Err(CommitmentError::Truncated(0)));
    let mut trailing = bytes.clone();
    trailing.push(1);
    assert_eq!(
        PublicCommitment::from_journal_bytes(&trailing),
        Err(CommitmentError::TrailingBytes(bytes.len()))
    );
}

#[test]
fn encoding_errors() {
    let mut long = sample([0u8; 32], ExecutionResult::Failure);
    long.sender = vec![1u8; 70_000];
    assert_eq!(long.to_journal_bytes(), Err(CommitmentError::FieldTooLong(70_000)));
    let mut big = sample([0u8; 32], ExecutionResult::Failure);
    let mut wide = vec![1u8];
    wide.extend_from_slice(&[0u8; 32]);
    big.amount = BigNumber::from_bytes_be(&wide);
    assert_eq!(big.to_journal_bytes(), Err(CommitmentError::AmountTooLarge));
    assert_eq!(big.digest(), Err(CommitmentError::AmountTooLarge));
}

#[test]
fn attested_commitment_requires_conditions_met() {
    use_attested();
}

fn use_attested() {
    let met = sample([1u8; 32], ExecutionResult::Success(ExecutionState::ConditionsMet));
    let bytes = met.to_journal_bytes().unwrap();
    assert_eq!(attested_commitment(&bytes), Ok(met));

    let failed = sample([1u8; 32], ExecutionResult::Failure);
    let bytes = failed.to_journal_bytes().unwrap();
    assert_eq!(
        attested_commitment(&bytes),
        Err(ProverError::UnexpectedOutcome(ExecutionResult::Failure))
    );

    let funded = sample([1u8; 32], ExecutionResult::Success(ExecutionState::Funded));
    let bytes = funded.to_journal_bytes().unwrap();
    assert_eq!(
        attested_commitment(&bytes),
        Err(ProverError::UnexpectedOutcome(ExecutionResult::Success(ExecutionState::Funded)))
    );

    assert_eq!(
        attested_commitment(&bytes[..3]),
        Err(ProverError::Journal(CommitmentError::Truncated(3)))
    );
}
