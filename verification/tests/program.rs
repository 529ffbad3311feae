use sha2::Digest;
use zescrow::accounts::{EscrowKey, Vault};
use zescrow::asset::{Asset, AssetKind};
use zescrow::bignum::BigNumber;
use zescrow::commitment::{EscrowTerms, ExecutionResult, ProofInput, PublicCommitment};
use zescrow::client::ReleaseProof;
use zescrow::e2e::{accepting_seal, rejecting_seal, solana_release_proof};
use zescrow::interface::{Chain, ExecutionState};
use zescrow::mock_verifier;
use zescrow::program::{
    cancel_escrow, create_escrow, finish_escrow, proof_required, reconstruct_journal,
    verify_instruction_data, verify_release_call, AccountMeta, CreateEscrowArgs, Escrow,
    EscrowError, EscrowState, InstructionError, ID, IMAGE_ID, VERIFIER_ROUTER,
};

const FUND: u64 = 1_000_000_000;
const RENT: u64 = 5_000_000;
/// Rent-exempt reserve of an escrow account (8 + 131 bytes of data).
const RENT_RESERVE: u64 = 1_858_320;
const CONDITIONED: [u8; 32] = [7u8; 32];
const SENDER: [u8; 32] = [11u8; 32];
const RECIPIENT: [u8; 32] = [22u8; 32];

/// The program's accounts with a funded sender and an empty recipient, at a
/// given slot.
struct Harness {
    vault: Vault,
    sender_lamports: u64,
    recipient_lamports: u64,
    slot: u64,
}

impl Harness {
    fn new() -> Self {
        Harness {
            vault: Vault::new(),
            sender_lamports: FUND * 4 + RENT,
            recipient_lamports: 0,
            slot: 0,
        }
    }

    fn key(id: u64) -> EscrowKey {
        EscrowKey { sender: SENDER, recipient: RECIPIENT, id }
    }

    fn create(
        &mut self,
        id: u64,
        finish_after: Option<u64>,
        cancel_after: Option<u64>,
        condition: [u8; 32],
    ) -> Result<(), InstructionError> {
        let args = CreateEscrowArgs { id, amount: FUND, finish_after, cancel_after, condition };
        let created = create_escrow(
            &mut self.vault,
            SENDER,
            RECIPIENT,
            args,
            255,
            RENT_RESERVE,
            self.sender_lamports,
        )?;
        self.sender_lamports = created.sender_lamports;
        Ok(())
    }

    /// Releases escrow `id` signed by `signer`, with the mock router's verdict
    /// on the Borsh-framed `seal`.
    fn finish(&mut self, id: u64, signer: [u8; 32], seal: Vec<u8>) -> Result<(), InstructionError> {
        let key = Self::key(id);
        let verdict = match self.vault.account(&key) {
            Some(account) => router_verdict(&account.escrow, &seal),
            None => false,
        };
        let recipient_lamports = if signer == RECIPIENT { self.recipient_lamports } else { RENT };
        let released = finish_escrow(
            &mut self.vault,
            &key,
            signer,
            self.slot,
            verdict,
            recipient_lamports,
            self.sender_lamports,
        )?;
        self.recipient_lamports = released.recipient_lamports;
        self.sender_lamports = released.sender_lamports;
        Ok(())
    }

    fn cancel(&mut self, id: u64) -> Result<(), InstructionError> {
        let cancelled =
            cancel_escrow(&mut self.vault, &Self::key(id), SENDER, self.slot, self.sender_lamports)?;
        self.sender_lamports = cancelled.sender_lamports;
        Ok(())
    }

    fn is_closed(&self, id: u64) -> bool {
        self.vault.is_closed(&Self::key(id))
    }
}

/// The verdict the mock router gives for a Borsh-framed seal (a four-byte
/// length, then the seal bytes) on `escrow`; an empty seal frames nothing.
fn router_verdict(escrow: &Escrow, framed_seal: &[u8]) -> bool {
    if framed_seal.len() < 4 {
        return false;
    }
    let journal = reconstruct_journal(escrow);
    let digest: [u8; 32] = sha2::Sha256::digest(&journal).into();
    mock_verifier::verify(&framed_seal[4..], IMAGE_ID, digest).is_ok()
}

#[test]
fn create_then_finish_unconditioned_releases_to_recipient() {
    let mut h = Harness::new();
    h.create(1, None, Some(1_000), [0u8; 32]).unwrap();

    let before = h.recipient_lamports;
    h.finish(1, RECIPIENT, Vec::new()).unwrap();

    assert_eq!(h.recipient_lamports - before, FUND);
    assert!(h.is_closed(1));
}

#[test]
fn create_then_cancel_refunds_sender() {
    let mut h = Harness::new();
    h.create(1, None, Some(10), [0u8; 32]).unwrap();

    h.slot = 10;
    let before = h.sender_lamports;
    h.cancel(1).unwrap();

    // The sender recovers the escrowed amount plus the reclaimed rent reserve.
    assert!(h.sender_lamports - before >= FUND);
    assert_eq!(h.sender_lamports - before, FUND + RENT_RESERVE);
    assert!(h.is_closed(1));
}

#[test]
fn finish_by_non_recipient_is_rejected() {
    let mut h = Harness::new();
    h.create(1, None, Some(1_000), [0u8; 32]).unwrap();

    let impostor = [33u8; 32];
    assert!(h.finish(1, impostor, Vec::new()).is_err());
    assert_eq!(h.finish(1, impostor, Vec::new()), Err(InstructionError::ConstraintSeeds));
    assert!(!h.is_closed(1));
}

#[test]
fn finish_before_window_is_rejected() {
    let mut h = Harness::new();
    h.create(1, Some(100), None, [0u8; 32]).unwrap();

    assert!(h.finish(1, RECIPIENT, Vec::new()).is_err());

    h.slot = 100;
    assert!(h.finish(1, RECIPIENT, Vec::new()).is_ok());
}

#[test]
fn conditioned_finish_with_valid_proof_releases() {
    let mut h = Harness::new();
    h.create(1, None, Some(1_000), CONDITIONED).unwrap();

    let before = h.recipient_lamports;
    h.finish(1, RECIPIENT, accepting_seal()).unwrap();

    assert_eq!(h.recipient_lamports - before, FUND);
    assert!(h.is_closed(1));
}

#[test]
fn conditioned_finish_with_invalid_proof_reverts() {
    let mut h = Harness::new();
    h.create(1, None, Some(1_000), CONDITIONED).unwrap();

    assert!(h.finish(1, RECIPIENT, rejecting_seal()).is_err());
    // The escrow is untouched and can still be settled with a valid proof.
    assert!(!h.is_closed(1));
    assert!(h.finish(1, RECIPIENT, accepting_seal()).is_ok());
}

#[test]
fn settled_escrow_cannot_be_finished_again() {
    let mut h = Harness::new();
    h.create(1, None, Some(1_000), [0u8; 32]).unwrap();

    h.finish(1, RECIPIENT, Vec::new()).unwrap();
    assert!(h.finish(1, RECIPIENT, Vec::new()).is_err());
}

#[test]
fn cancel_window_not_after_finish_is_rejected_at_create() {
    let mut h = Harness::new();
    // cancel_after must open strictly after the finish window; Some(0) does not.
    assert!(h.create(1, None, Some(0), [0u8; 32]).is_err());
    assert!(h.create(2, Some(50), Some(50), [0u8; 32]).is_err());
}

#[test]
fn concurrent_escrows_per_pair_use_distinct_ids() {
    let mut h = Harness::new();
    h.create(1, None, Some(1_000), [0u8; 32]).unwrap();
    h.create(2, None, Some(1_000), [0u8; 32]).unwrap();

    let before = h.recipient_lamports;
    h.finish(1, RECIPIENT, Vec::new()).unwrap();
    h.finish(2, RECIPIENT, Vec::new()).unwrap();

    assert_eq!(h.recipient_lamports - before, FUND * 2);
    assert!(h.is_closed(1));
    assert!(h.is_closed(2));
}

#[test]
fn release_returns_rent_reserve_to_sender() {
    let mut h = Harness::new();
    let start = h.sender_lamports;
    h.create(1, None, Some(1_000), [0u8; 32]).unwrap();
    assert_eq!(start - h.sender_lamports, FUND + RENT_RESERVE);
    let account = h.vault.account(&Harness::key(1)).unwrap();
    assert_eq!(account.lamports, FUND + RENT_RESERVE);
    h.finish(1, RECIPIENT, Vec::new()).unwrap();
    assert_eq!(start - h.sender_lamports, FUND);
}

#[test]
fn live_id_is_refused_and_reusable_after_close() {
    let mut h = Harness::new();
    h.create(1, None, Some(1_000), [0u8; 32]).unwrap();
    let before = h.sender_lamports;
    assert_eq!(h.create(1, None, Some(1_000), [0u8; 32]), Err(InstructionError::AccountInUse));
    assert_eq!(h.sender_lamports, before);
    h.finish(1, RECIPIENT, Vec::new()).unwrap();
    assert!(h.create(1, None, Some(1_000), [0u8; 32]).is_ok());
}

#[test]
fn settled_escrow_cannot_be_cancelled() {
    let mut h = Harness::new();
    h.create(1, None, Some(10), [0u8; 32]).unwrap();
    h.slot = 10;
    h.cancel(1).unwrap();
    assert_eq!(h.cancel(1), Err(InstructionError::AccountNotInitialized));
    assert_eq!(h.finish(1, RECIPIENT, Vec::new()), Err(InstructionError::AccountNotInitialized));
}

#[test]
fn conditioned_escrow_must_enable_cancel() {
    let mut h = Harness::new();
    assert_eq!(
        h.create(1, Some(10), None, CONDITIONED),
        Err(InstructionError::Program(EscrowError::ConditionRequiresCancel))
    );
    assert!(h.is_closed(1));
    assert_eq!(h.sender_lamports, FUND * 4 + RENT);
    assert!(h.create(1, Some(10), Some(11), CONDITIONED).is_ok());
}

#[test]
fn create_needs_rent_and_amount() {
    let mut vault = Vault::new();
    let args = CreateEscrowArgs {
        id: 1,
        amount: FUND,
        finish_after: Some(1),
        cancel_after: None,
        condition: [0u8; 32],
    };
    assert_eq!(
        create_escrow(&mut vault, SENDER, RECIPIENT, args, 0, RENT_RESERVE, RENT_RESERVE - 1),
        Err(InstructionError::InsufficientFunds)
    );
    assert_eq!(
        create_escrow(&mut vault, SENDER, RECIPIENT, args, 0, RENT_RESERVE, RENT_RESERVE + FUND - 1),
        Err(InstructionError::InsufficientFunds)
    );
    let created =
        create_escrow(&mut vault, SENDER, RECIPIENT, args, 0, RENT_RESERVE, RENT_RESERVE + FUND)
            .unwrap();
    assert_eq!(created.sender_lamports, 0);
    assert_eq!(created.account_lamports, RENT_RESERVE + FUND);
    assert_eq!(created.event.action, EscrowState::Created);
}

#[test]
fn reconstructed_journal_matches_guest_commitment() {
    let sender = [3u8; 32];
    let recipient = [4u8; 32];
    let amount = 1_000_000_000u64;
    let escrow_id = 7u64;
    let condition: [u8; 32] = sha2::Sha256::digest(b"zkEscrow").into();

    let onchain = Escrow {
        sender,
        recipient,
        amount,
        id: escrow_id,
        finish_after: None,
        cancel_after: None,
        condition,
        bump: 0,
    };
    let reconstructed = reconstruct_journal(&onchain);

    let input = ProofInput {
        escrow: EscrowTerms {
            sender: sender.to_vec(),
            recipient: recipient.to_vec(),
            asset: Asset {
                kind: AssetKind::Native,
                agent_id: None,
                amount: BigNumber::from_u64(amount),
                decimals: None,
            },
            condition: Some(condition),
        },
        chain: Chain::Solana,
        agent_id: ID.to_vec(),
        escrow_id,
    };
    let commitment =
        PublicCommitment::new(&input, ExecutionResult::Success(ExecutionState::ConditionsMet));

    assert_eq!(reconstructed, commitment.to_journal_bytes().unwrap());
}

#[test]
fn commitment_without_condition_is_all_zero() {
    let input = ProofInput {
        escrow: EscrowTerms {
            sender: vec![1, 2],
            recipient: vec![3],
            asset: Asset {
                kind: AssetKind::Token,
                agent_id: Some(vec![9, 9]),
                amount: BigNumber::from_u64(5),
                decimals: Some(6),
            },
            condition: None,
        },
        chain: Chain::Ethereum,
        agent_id: vec![4, 4, 4],
        escrow_id: 2,
    };
    let commitment = PublicCommitment::new(&input, ExecutionResult::Failure);
    assert_eq!(commitment.condition, [0u8; 32]);
    assert_eq!(commitment.asset_token, vec![9, 9]);
    assert_eq!(commitment.sender, vec![1, 2]);
    assert_eq!(commitment.recipient, vec![3]);
    assert_eq!(commitment.agent_id, vec![4, 4, 4]);
    assert_eq!(commitment.escrow_id, 2);
    assert_eq!(commitment.amount, BigNumber::from_u64(5));
    assert_eq!(commitment.outcome, ExecutionResult::Failure);
}

#[test]
fn create_rejections_in_order() {
    let mut vault = Vault::new();
    let args = CreateEscrowArgs {
        id: 1,
        amount: 0,
        finish_after: None,
        cancel_after: None,
        condition: [0u8; 32],
    };
    let program = |e| Err(InstructionError::Program(e));
    assert_eq!(
        create_escrow(&mut vault, SENDER, SENDER, args, 0, RENT_RESERVE, FUND).map(|c| c.escrow),
        program(EscrowError::InvalidRecipient)
    );
    assert_eq!(
        create_escrow(&mut vault, SENDER, RECIPIENT, args, 0, RENT_RESERVE, FUND).map(|c| c.escrow),
        program(EscrowError::MustSpecifyPath)
    );
    let args = CreateEscrowArgs { finish_after: Some(5), ..args };
    assert_eq!(
        create_escrow(&mut vault, SENDER, RECIPIENT, args, 0, RENT_RESERVE, FUND).map(|c| c.escrow),
        program(EscrowError::InvalidAmount)
    );
    assert!(vault.is_closed(&Harness::key(1)));
}

#[test]
fn cancel_rules() {
    let mut h = Harness::new();
    h.create(1, Some(5), None, [0u8; 32]).unwrap();
    h.slot = 99;
    assert_eq!(h.cancel(1), Err(InstructionError::Program(EscrowError::CancelNotAllowed)));
    assert_eq!(
        cancel_escrow(&mut h.vault, &Harness::key(1), RECIPIENT, 99, 0).map(|c| c.sender_lamports),
        Err(InstructionError::ConstraintSeeds)
    );
    h.create(2, None, Some(10), [0u8; 32]).unwrap();
    h.slot = 9;
    assert_eq!(h.cancel(2), Err(InstructionError::Program(EscrowError::NotExpired)));
    assert!(!h.is_closed(2));
}

#[test]
fn finish_lamport_overflow() {
    let mut h = Harness::new();
    h.create(1, None, Some(10), [0u8; 32]).unwrap();
    let key = Harness::key(1);
    assert_eq!(
        finish_escrow(&mut h.vault, &key, RECIPIENT, 0, false, u64::MAX, 0).map(|r| r.event),
        Err(InstructionError::Program(EscrowError::ArithmeticOverflow))
    );
    assert_eq!(
        finish_escrow(&mut h.vault, &key, RECIPIENT, 0, false, 0, u64::MAX).map(|r| r.event),
        Err(InstructionError::Program(EscrowError::ArithmeticOverflow))
    );
    assert!(!h.is_closed(1));
    let released = finish_escrow(&mut h.vault, &key, RECIPIENT, 0, false, 0, 0).unwrap();
    assert_eq!(released.recipient_lamports, FUND);
    assert_eq!(released.sender_lamports, RENT_RESERVE);
    assert_eq!(released.event.action, EscrowState::Finished);
    assert_eq!(released.event.id, 1);
}

#[test]
fn verify_instruction_layout() {
    let mut h = Harness::new();
    h.create(1, None, Some(10), CONDITIONED).unwrap();
    let escrow = h.vault.account(&Harness::key(1)).unwrap().escrow;
    assert!(proof_required(&escrow));
    let seal = [9u8, 8, 7];
    let data = verify_instruction_data(&escrow, &seal);
    let selector = sha2::Sha256::digest(b"global:verify");
    let digest = sha2::Sha256::digest(&reconstruct_journal(&escrow));
    assert_eq!(&data[..8], &selector[..8]);
    assert_eq!(&data[8..11], &seal);
    assert_eq!(&data[11..43], &IMAGE_ID);
    assert_eq!(&data[43..], &digest[..]);
}

#[test]
fn release_call_names_router_and_accounts() {
    let mut h = Harness::new();
    h.create(1, None, Some(10), CONDITIONED).unwrap();
    let escrow = h.vault.account(&Harness::key(1)).unwrap().escrow;
    let router_accounts = [
        AccountMeta { pubkey: [1u8; 32], is_signer: false, is_writable: false },
        AccountMeta { pubkey: [2u8; 32], is_signer: false, is_writable: true },
    ];
    let router = AccountMeta { pubkey: VERIFIER_ROUTER, is_signer: false, is_writable: false };
    let seal = [5u8, 6];
    let call = verify_release_call(&escrow, &router_accounts, router, &seal);
    assert_eq!(call.program_id, VERIFIER_ROUTER);
    assert_eq!(call.accounts, router_accounts.to_vec());
    assert_eq!(call.data, verify_instruction_data(&escrow, &seal));
    assert_eq!(call.infos.len(), 3);
    assert_eq!(&call.infos[..2], &router_accounts[..]);
    assert_eq!(call.infos[2], router);
}

#[test]
fn program_id_is_the_declared_address() {
    assert_eq!(
        hex::encode(ID),
        "fd78701b2fe724ca5faedbfbb33e2005a984b53b41e9dba81aff89cc1c985464"
    );
}

#[test]
fn solana_release_proof_keeps_journal() {
    let proven = ReleaseProof { seal: vec![9, 9, 9], journal: vec![1, 2, 3] };
    let proof = solana_release_proof(proven);
    assert_eq!(proof.seal, vec![1]);
    assert_eq!(proof.journal, vec![1, 2, 3]);
}
