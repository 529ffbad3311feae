//! Settlement rules of the Solana escrow program: XRPL-style time locks and
//! proof-gated release.
//!
//! Funds are locked in a per-escrow account and released to the recipient only
//! after its finish window opens and, for a conditioned escrow, once the pinned
//! verifier router accepts a receipt for the journal this program rebuilds from
//! its own state. Each instruction acts on the program's escrow accounts
//! ([`Vault`]): given the signer, the clock slot, the balances it touches and,
//! for a release, the router's verdict, it opens or closes an account and
//! gives the new balances and the event, or refuses and changes nothing.
use crate::accounts::{account_key, AccountSeeds, EscrowAccount, EscrowKey, Vault};
use crate::asset::AssetKind;
use crate::be::{
    be_bytes, lemma_be_bytes_pad, lemma_pow256_values, u16_to_be_bytes, u64_to_be_bytes, zeros,
};
use crate::commitment::{
    commitment_of, condition_commitment, ProofInput, encodable, extend, journal_bytes, lemma_journal_roundtrip, parse_journal, ExecutionResult,
    JournalView,
};
use crate::interface::{Chain, ExecutionState};
use crate::outside::{sha256, sha256_digest};
use vstd::prelude::*;

verus! {

/// The program's own address.
pub const ID: [u8; 32] = [
    253, 120, 112, 27, 47, 231, 36, 202, 95, 174, 219, 251, 179, 62, 32, 5, 169, 132, 181, 59, 65,
    233, 219, 168, 26, 255, 137, 204, 28, 152, 84, 100,
];

/// Seed prefix for escrow account derivation (`b"escrow"`).
pub const ESCROW: [u8; 6] = [101, 115, 99, 114, 111, 119];

/// The RISC Zero verifier router this program delegates proof checking to.
pub const VERIFIER_ROUTER: [u8; 32] = [
    78, 225, 133, 125, 40, 66, 77, 214, 9, 252, 64, 53, 108, 230, 117, 158, 173, 73, 175, 167, 6,
    101, 14, 54, 1, 226, 70, 97, 85, 205, 10, 148,
];

/// The pinned guest image id authorized to release conditioned escrows.
pub const IMAGE_ID: [u8; 32] = [
    0, 0, 0, 0, 0, 0, 0, 0, 0, 0, 0, 0, 0, 0, 0, 0, 0, 0, 0, 0, 0, 0, 0, 0, 0, 0, 0, 0, 0, 0, 0, 0,
];

/// The name whose SHA-256 prefix selects the router's `verify` instruction
/// (`b"global:verify"`).
pub const VERIFY_SELECTOR_NAME: [u8; 13] = [103, 108, 111, 98, 97, 108, 58, 118, 101, 114, 105, 102, 121];

/// Escrow account data, stored in a per-escrow account.
#[derive(Debug, Clone, Copy, PartialEq, Eq)]
pub struct Escrow {
    /// Account that funded the escrow.
    pub sender: [u8; 32],
    /// Intended beneficiary of the escrowed funds.
    pub recipient: [u8; 32],
    /// Lamports locked, exclusive of the rent reserve.
    pub amount: u64,
    /// Caller-supplied unique identifier; an address seed and the journal binding.
    pub id: u64,
    /// Slot after which release is allowed (`None` allows immediate release).
    pub finish_after: Option<u64>,
    /// Slot after which the sender may reclaim (`None` disables cancellation).
    pub cancel_after: Option<u64>,
    /// Witness-free release-condition commitment (all-zero when unconditioned).
    pub condition: [u8; 32],
    /// Address bump seed.
    pub bump: u8,
}

/// Arguments for `create_escrow`.
#[derive(Debug, Clone, Copy, PartialEq, Eq)]
pub struct CreateEscrowArgs {
    /// Caller-supplied unique id.
    pub id: u64,
    /// Lamports to lock.
    pub amount: u64,
    /// Slot after which release is allowed (`None` allows immediate release).
    pub finish_after: Option<u64>,
    /// Slot after which the sender may reclaim (`None` disables cancellation).
    pub cancel_after: Option<u64>,
    /// Witness-free release-condition commitment (all-zero for unconditioned).
    pub condition: [u8; 32],
}

/// Escrow lifecycle actions.
#[derive(Debug, Clone, Copy, PartialEq, Eq, Structural)]
pub enum EscrowState {
    /// Escrow initialized and funded.
    Created,
    /// Escrow released to the recipient.
    Finished,
    /// Escrow cancelled and the sender refunded.
    Cancelled,
}

/// Event emitted at each lifecycle step.
#[derive(Debug, Clone, Copy, PartialEq, Eq)]
pub struct EscrowEvent {
    /// Caller-supplied escrow id.
    pub id: u64,
    /// Original funder.
    pub sender: [u8; 32],
    /// Intended beneficiary.
    pub recipient: [u8; 32],
    /// Escrowed amount in lamports.
    pub amount: u64,
    /// Lifecycle stage just executed.
    pub action: EscrowState,
}

/// Program error codes.
#[derive(Debug, Clone, Copy, PartialEq, Eq, Structural)]
pub enum EscrowError {
    /// Specified amount is zero.
    InvalidAmount,
    /// Neither `finish_after` nor `cancel_after` was provided.
    MustSpecifyPath,
    /// Cancellation does not open strictly after the finish window.
    InvalidTimeOrder,
    /// Sender and recipient are the same account.
    InvalidRecipient,
    /// Caller is not the account authorized for this action.
    Unauthorized,
    /// The finish window has not yet opened.
    NotReady,
    /// Cancellation was not enabled for this escrow.
    CancelNotAllowed,
    /// The cancel window has not yet opened.
    NotExpired,
    /// The release proof failed on-chain verification.
    ProofVerificationFailed,
    /// A lamport balance update overflowed.
    ArithmeticOverflow,
    /// A conditioned escrow must enable cancellation.
    ConditionRequiresCancel,
}

/// Why an instruction is refused: one of the program's own checks, or the
/// runtime's handling of the escrow account and the sender's funds.
#[derive(Debug, Clone, Copy, PartialEq, Eq, Structural)]
pub enum InstructionError {
    /// One of the program's own checks failed.
    Program(EscrowError),
    /// A live escrow account already stands at the address: the id is still in
    /// use for this sender and recipient.
    AccountInUse,
    /// No live escrow account stands at the address: it was never created, or
    /// it was closed by a release or a cancel.
    AccountNotInitialized,
    /// The sender cannot pay the rent reserve or the escrowed amount.
    InsufficientFunds,
    /// The account's address is not the one its seeds give with the signer's
    /// key in the signer's place: the signer is not the party the instruction
    /// is for.
    ConstraintSeeds,
}

/// A created escrow: the record stored, the new balances of the escrow
/// account and of the sender, and the event.
#[derive(Debug, Clone, Copy, PartialEq, Eq)]
pub struct Created {
    pub escrow: Escrow,
    pub account_lamports: u64,
    pub sender_lamports: u64,
    pub event: EscrowEvent,
}

/// A release: the new balances of the recipient and of the sender (who gets
/// the rent reserve back when the account closes), and the event.
#[derive(Debug, Clone, Copy, PartialEq, Eq)]
pub struct Released {
    pub recipient_lamports: u64,
    pub sender_lamports: u64,
    pub event: EscrowEvent,
}

/// A cancellation: the sender's new balance (the whole balance of the closed
/// account added) and the event.
#[derive(Debug, Clone, Copy, PartialEq, Eq)]
pub struct Cancelled {
    pub sender_lamports: u64,
    pub event: EscrowEvent,
}

/// Whether an escrow needs a verified proof to be released.
pub open spec fn is_conditioned(e: Escrow) -> bool {
    e.condition@ != Seq::new(32, |i: int| 0u8)
}

/// Whether these arguments commit to a release condition.
pub open spec fn args_conditioned(args: CreateEscrowArgs) -> bool {
    args.condition@ != Seq::new(32, |i: int| 0u8)
}

/// What `create_escrow` decides for these arguments.
pub open spec fn create_check(sender: [u8; 32], recipient: [u8; 32], args: CreateEscrowArgs) -> Result<
    (),
    EscrowError,
> {
    if recipient@ == sender@ {
        Err(EscrowError::InvalidRecipient)
    } else if args.finish_after is None && args.cancel_after is None {
        Err(EscrowError::MustSpecifyPath)
    } else if args.cancel_after is Some && args.cancel_after->0 <= match args.finish_after {
        Some(f) => f,
        None => 0,
    } {
        Err(EscrowError::InvalidTimeOrder)
    } else if args_conditioned(args) && args.cancel_after is None {
        Err(EscrowError::ConditionRequiresCancel)
    } else if args.amount == 0 {
        Err(EscrowError::InvalidAmount)
    } else {
        Ok(())
    }
}

/// What `finish_escrow` decides before moving lamports.
pub open spec fn finish_check(e: Escrow, caller: [u8; 32], slot: u64, proof_accepted: bool) -> Result<
    (),
    EscrowError,
> {
    if caller@ != e.recipient@ {
        Err(EscrowError::Unauthorized)
    } else if e.finish_after is Some && slot < e.finish_after->0 {
        Err(EscrowError::NotReady)
    } else if is_conditioned(e) && !proof_accepted {
        Err(EscrowError::ProofVerificationFailed)
    } else {
        Ok(())
    }
}

/// What `cancel_escrow` decides.
pub open spec fn cancel_check(e: Escrow, caller: [u8; 32], slot: u64) -> Result<(), EscrowError> {
    if caller@ != e.sender@ {
        Err(EscrowError::Unauthorized)
    } else if e.cancel_after is None {
        Err(EscrowError::CancelNotAllowed)
    } else if slot < e.cancel_after->0 {
        Err(EscrowError::NotExpired)
    } else {
        Ok(())
    }
}

/// The commitment a valid receipt must carry to release `e`: a met,
/// native-coin settlement of this escrow on Solana by this program.
pub open spec fn settled_commitment(e: Escrow) -> JournalView {
    JournalView {
        chain: Chain::Solana,
        agent_id: ID@,
        escrow_id: e.id,
        sender: e.sender@,
        recipient: e.recipient@,
        asset_kind: AssetKind::Native,
        asset_token: Seq::empty(),
        amount: e.amount as nat,
        condition: e.condition@,
        outcome: ExecutionResult::Success(ExecutionState::ConditionsMet),
    }
}

/// The escrow `create_escrow` stores for these arguments.
pub open spec fn created_escrow(sender: [u8; 32], recipient: [u8; 32], args: CreateEscrowArgs, bump: u8) -> Escrow {
    Escrow {
        sender,
        recipient,
        amount: args.amount,
        id: args.id,
        finish_after: args.finish_after,
        cancel_after: args.cancel_after,
        condition: args.condition,
        bump,
    }
}

/// The event emitted when `e` takes the lifecycle step `action`.
pub open spec fn event_of(e: Escrow, action: EscrowState) -> EscrowEvent {
    EscrowEvent { id: e.id, sender: e.sender, recipient: e.recipient, amount: e.amount, action }
}

/// What `create_escrow` gives, over the live accounts before it: the account
/// is initialised first (refused where one is live at its address; the sender
/// pays its `rent` reserve), then the arguments are checked and the amount is
/// moved from the sender into the account.
pub open spec fn create_result(
    accounts: Map<AccountSeeds, EscrowAccount>,
    sender: [u8; 32],
    recipient: [u8; 32],
    args: CreateEscrowArgs,
    bump: u8,
    rent: u64,
    sender_lamports: u64,
) -> Result<Created, InstructionError> {
    if accounts.contains_key((sender@, recipient@, args.id)) {
        Err(InstructionError::AccountInUse)
    } else if sender_lamports < rent {
        Err(InstructionError::InsufficientFunds)
    } else {
        match create_check(sender, recipient, args) {
            Err(e) => Err(InstructionError::Program(e)),
            Ok(()) => if sender_lamports - rent < args.amount {
                Err(InstructionError::InsufficientFunds)
            } else {
                let e = created_escrow(sender, recipient, args, bump);
                Ok(
                    Created {
                        escrow: e,
                        account_lamports: (rent + args.amount) as u64,
                        sender_lamports: (sender_lamports - rent - args.amount) as u64,
                        event: event_of(e, EscrowState::Created),
                    },
                )
            },
        }
    }
}

/// What `finish_escrow` gives for the account at `key`, with the recipient's
/// and the sender's balances before it.
pub open spec fn finish_result(
    accounts: Map<AccountSeeds, EscrowAccount>,
    key: AccountSeeds,
    signer: [u8; 32],
    slot: u64,
    proof_accepted: bool,
    recipient_lamports: u64,
    sender_lamports: u64,
) -> Result<Released, InstructionError> {
    if !accounts.contains_key(key) {
        Err(InstructionError::AccountNotInitialized)
    } else {
        let a = accounts[key];
        let e = a.escrow;
        if signer@ != e.recipient@ {
            Err(InstructionError::ConstraintSeeds)
        } else {
            match finish_check(e, signer, slot, proof_accepted) {
                Err(err) => Err(InstructionError::Program(err)),
                Ok(()) => if a.lamports < e.amount || recipient_lamports + e.amount > u64::MAX
                    || sender_lamports + (a.lamports - e.amount) > u64::MAX {
                    Err(InstructionError::Program(EscrowError::ArithmeticOverflow))
                } else {
                    Ok(
                        Released {
                            recipient_lamports: (recipient_lamports + e.amount) as u64,
                            sender_lamports: (sender_lamports + (a.lamports - e.amount)) as u64,
                            event: event_of(e, EscrowState::Finished),
                        },
                    )
                },
            }
        }
    }
}

/// What `cancel_escrow` gives for the account at `key`, with the sender's
/// balance before it.
pub open spec fn cancel_result(
    accounts: Map<AccountSeeds, EscrowAccount>,
    key: AccountSeeds,
    signer: [u8; 32],
    slot: u64,
    sender_lamports: u64,
) -> Result<Cancelled, InstructionError> {
    if !accounts.contains_key(key) {
        Err(InstructionError::AccountNotInitialized)
    } else {
        let a = accounts[key];
        if signer@ != a.escrow.sender@ {
            Err(InstructionError::ConstraintSeeds)
        } else {
            match cancel_check(a.escrow, signer, slot) {
                Err(err) => Err(InstructionError::Program(err)),
                Ok(()) => if sender_lamports + a.lamports > u64::MAX {
                    Err(InstructionError::Program(EscrowError::ArithmeticOverflow))
                } else {
                    Ok(
                        Cancelled {
                            sender_lamports: (sender_lamports + a.lamports) as u64,
                            event: event_of(a.escrow, EscrowState::Cancelled),
                        },
                    )
                },
            }
        }
    }
}

/// Whether two keys are equal.
pub fn key_eq(a: &[u8; 32], b: &[u8; 32]) -> (r: bool)
    ensures
        r == (a@ == b@),
{
    let mut i: usize = 0;
    while i < 32
        invariant
            i <= 32,
            a@.len() == 32,
            b@.len() == 32,
            forall|k: int| 0 <= k < i ==> a@[k] == b@[k],
        decreases 32 - i,
    {
        if a[i] != b[i] {
            assert(a@[i as int] != b@[i as int]);
            return false;
        }
        i = i + 1;
    }
    assert(a@ =~= b@);
    true
}

/// Whether a condition commitment is the all-zero one of an unconditioned escrow.
fn is_zero_condition(condition: &[u8; 32]) -> (r: bool)
    ensures
        r == (condition@ == Seq::new(32, |i: int| 0u8)),
{
    let mut i: usize = 0;
    while i < 32
        invariant
            i <= 32,
            condition@.len() == 32,
            forall|k: int| 0 <= k < i ==> condition@[k] == 0,
        decreases 32 - i,
    {
        if condition[i] != 0 {
            assert(condition@[i as int] != Seq::new(32, |k: int| 0u8)[i as int]);
            return false;
        }
        i = i + 1;
    }
    assert(condition@ =~= Seq::new(32, |k: int| 0u8));
    true
}

/// Whether the escrow carries a release condition.
pub fn proof_required(escrow: &Escrow) -> (r: bool)
    ensures
        r == is_conditioned(*escrow),
{
    !is_zero_condition(&escrow.condition)
}

/// Creates and funds a new escrow in the account at `(sender, recipient,
/// args.id)`.
///
/// The account must not be live; the sender pays its `rent` reserve and the
/// escrowed amount out of `sender_lamports`. Sender and recipient must differ;
/// at least one of `finish_after` and `cancel_after` must be set, so an escrow
/// always has a time-based resolution path; cancellation, when enabled, must
/// open strictly after the finish window, so the recipient holds an exclusive
/// release window; a conditioned escrow must enable cancellation, so its funds
/// come back to the sender if no valid proof ever arrives; and the amount must
/// be positive. On any refusal no account changes.
pub fn create_escrow(
    vault: &mut Vault,
    sender: [u8; 32],
    recipient: [u8; 32],
    args: CreateEscrowArgs,
    bump: u8,
    rent: u64,
    sender_lamports: u64,
) -> (r: Result<Created, InstructionError>)
    ensures
        r == create_result(old(vault)@, sender, recipient, args, bump, rent, sender_lamports),
        match r {
            Ok(c) => final(vault)@ == old(vault)@.insert(
                (sender@, recipient@, args.id),
                EscrowAccount { escrow: c.escrow, lamports: c.account_lamports },
            ),
            Err(_) => final(vault)@ == old(vault)@,
        },
{
    let key = EscrowKey { sender, recipient, id: args.id };
    if !vault.is_closed(&key) {
        return Err(InstructionError::AccountInUse);
    }
    if sender_lamports < rent {
        return Err(InstructionError::InsufficientFunds);
    }
    if key_eq(&recipient, &sender) {
        return Err(InstructionError::Program(EscrowError::InvalidRecipient));
    }
    if args.finish_after.is_none() && args.cancel_after.is_none() {
        return Err(InstructionError::Program(EscrowError::MustSpecifyPath));
    }
    if let Some(cancel) = args.cancel_after {
        let finish = match args.finish_after {
            Some(f) => f,
            None => 0,
        };
        if cancel <= finish {
            return Err(InstructionError::Program(EscrowError::InvalidTimeOrder));
        }
    }
    if !is_zero_condition(&args.condition) && args.cancel_after.is_none() {
        return Err(InstructionError::Program(EscrowError::ConditionRequiresCancel));
    }
    if args.amount == 0 {
        return Err(InstructionError::Program(EscrowError::InvalidAmount));
    }
    let after_rent = sender_lamports - rent;
    if after_rent < args.amount {
        return Err(InstructionError::InsufficientFunds);
    }
    let escrow = Escrow {
        sender,
        recipient,
        amount: args.amount,
        id: args.id,
        finish_after: args.finish_after,
        cancel_after: args.cancel_after,
        condition: args.condition,
        bump,
    };
    let account_lamports = rent + args.amount;
    vault.open(EscrowAccount { escrow, lamports: account_lamports });
    let event = EscrowEvent {
        id: escrow.id,
        sender: escrow.sender,
        recipient: escrow.recipient,
        amount: escrow.amount,
        action: EscrowState::Created,
    };
    Ok(Created { escrow, account_lamports, sender_lamports: after_rent - args.amount, event })
}

/// Releases the escrow at `key` to its recipient and closes its account.
///
/// `signer` must be the recipient: the account's address is checked against
/// its seeds with the signer's key in the recipient's place, so another signer
/// is refused by that check (`ConstraintSeeds`) before the program's own
/// checks run. The finish window must have opened. A
/// conditioned escrow also needs `proof_accepted`: the verdict of the verifier
/// router on [`verify_release_call`] for this escrow (ignored for an
/// unconditioned escrow). The escrowed amount moves to the recipient, the rest
/// of the account's balance (its rent reserve) goes back to the sender, and
/// the account is closed, so the escrow cannot be settled again. On any
/// refusal no account and no balance changes.
pub fn finish_escrow(
    vault: &mut Vault,
    key: &EscrowKey,
    signer: [u8; 32],
    slot: u64,
    proof_accepted: bool,
    recipient_lamports: u64,
    sender_lamports: u64,
) -> (r: Result<Released, InstructionError>)
    ensures
        r == finish_result(
            old(vault)@,
            key@,
            signer,
            slot,
            proof_accepted,
            recipient_lamports,
            sender_lamports,
        ),
        match r {
            Ok(_) => final(vault)@ == old(vault)@.remove(key@),
            Err(_) => final(vault)@ == old(vault)@,
        },
{
    let account = match vault.account(key) {
        Some(a) => a,
        None => return Err(InstructionError::AccountNotInitialized),
    };
    let escrow = account.escrow;
    if !key_eq(&signer, &escrow.recipient) {
        return Err(InstructionError::ConstraintSeeds);
    }
    if let Some(finish_after) = escrow.finish_after {
        if slot < finish_after {
            return Err(InstructionError::Program(EscrowError::NotReady));
        }
    }
    if proof_required(&escrow) && !proof_accepted {
        return Err(InstructionError::Program(EscrowError::ProofVerificationFailed));
    }
    let amount = escrow.amount;
    let debited = match account.lamports.checked_sub(amount) {
        Some(v) => v,
        None => return Err(InstructionError::Program(EscrowError::ArithmeticOverflow)),
    };
    let credited = match recipient_lamports.checked_add(amount) {
        Some(v) => v,
        None => return Err(InstructionError::Program(EscrowError::ArithmeticOverflow)),
    };
    let refunded = match sender_lamports.checked_add(debited) {
        Some(v) => v,
        None => return Err(InstructionError::Program(EscrowError::ArithmeticOverflow)),
    };
    vault.close(key);
    Ok(
        Released {
            recipient_lamports: credited,
            sender_lamports: refunded,
            event: EscrowEvent {
                id: escrow.id,
                sender: escrow.sender,
                recipient: escrow.recipient,
                amount,
                action: EscrowState::Finished,
            },
        },
    )
}

/// Cancels the escrow at `key`, closes its account and refunds the sender.
///
/// `signer` must be the sender (the address is checked against its seeds
/// with the signer's key in the sender's place, so another signer is refused
/// with `ConstraintSeeds`), cancellation must have been enabled, and the
/// cancel window must have opened. The account's whole balance, the escrowed amount
/// plus the rent reserve, goes back to the sender. On any refusal no account
/// and no balance changes.
pub fn cancel_escrow(
    vault: &mut Vault,
    key: &EscrowKey,
    signer: [u8; 32],
    slot: u64,
    sender_lamports: u64,
) -> (r: Result<Cancelled, InstructionError>)
    ensures
        r == cancel_result(old(vault)@, key@, signer, slot, sender_lamports),
        match r {
            Ok(_) => final(vault)@ == old(vault)@.remove(key@),
            Err(_) => final(vault)@ == old(vault)@,
        },
{
    let account = match vault.account(key) {
        Some(a) => a,
        None => return Err(InstructionError::AccountNotInitialized),
    };
    let escrow = account.escrow;
    if !key_eq(&signer, &escrow.sender) {
        return Err(InstructionError::ConstraintSeeds);
    }
    let cancel_after = match escrow.cancel_after {
        Some(c) => c,
        None => return Err(InstructionError::Program(EscrowError::CancelNotAllowed)),
    };
    if slot < cancel_after {
        return Err(InstructionError::Program(EscrowError::NotExpired));
    }
    let refunded = match sender_lamports.checked_add(account.lamports) {
        Some(v) => v,
        None => return Err(InstructionError::Program(EscrowError::ArithmeticOverflow)),
    };
    vault.close(key);
    Ok(
        Cancelled {
            sender_lamports: refunded,
            event: EscrowEvent {
                id: escrow.id,
                sender: escrow.sender,
                recipient: escrow.recipient,
                amount: escrow.amount,
                action: EscrowState::Cancelled,
            },
        },
    )
}

/// Every escrow the program creates leaves the recipient an exclusive release
/// window: at the slot its finish window opens (slot 0 when none is set), the
/// recipient passes every check of `finish_escrow` given an accepted proof,
/// while the sender's `cancel_escrow` is refused; and from the cancel slot on
/// (when one is set) the sender's cancel is accepted.
pub proof fn lemma_exclusive_release_window(
    sender: [u8; 32],
    recipient: [u8; 32],
    args: CreateEscrowArgs,
    bump: u8,
)
    requires
        create_check(sender, recipient, args) is Ok,
    ensures
        ({
            let e = created_escrow(sender, recipient, args, bump);
            let open = match args.finish_after {
                Some(f) => f,
                None => 0,
            };
            &&& finish_check(e, recipient, open, true) is Ok
            &&& cancel_check(e, sender, open) is Err
            &&& forall|slot: u64|
                #![trigger cancel_check(e, sender, slot)]
                args.cancel_after matches Some(c) && slot >= c ==> cancel_check(e, sender, slot) is Ok
        }),
{
}

/// Every created escrow has a resolution that needs no proof: an
/// unconditioned escrow can be released by the recipient once its finish
/// window opens, and a conditioned one always has a cancel slot from which the
/// sender can reclaim it.
pub proof fn lemma_time_based_resolution(
    sender: [u8; 32],
    recipient: [u8; 32],
    args: CreateEscrowArgs,
    bump: u8,
)
    requires
        create_check(sender, recipient, args) is Ok,
    ensures
        ({
            let e = created_escrow(sender, recipient, args, bump);
            let open = match args.finish_after {
                Some(f) => f,
                None => 0,
            };
            &&& !is_conditioned(e) ==> finish_check(e, recipient, open, false) is Ok
            &&& is_conditioned(e) ==> args.cancel_after is Some && cancel_check(
                e,
                sender,
                args.cancel_after->0,
            ) is Ok
        }),
{
}

/// A created escrow's account holds the rent reserve plus the escrowed
/// amount, all of it taken from the sender: no lamports are made or lost.
pub proof fn lemma_create_funds_account(
    accounts: Map<AccountSeeds, EscrowAccount>,
    sender: [u8; 32],
    recipient: [u8; 32],
    args: CreateEscrowArgs,
    bump: u8,
    rent: u64,
    sender_lamports: u64,
)
    requires
        create_result(accounts, sender, recipient, args, bump, rent, sender_lamports) is Ok,
    ensures
        ({
            let c = create_result(accounts, sender, recipient, args, bump, rent, sender_lamports)->Ok_0;
            &&& c.account_lamports == rent + args.amount
            &&& c.sender_lamports + c.account_lamports == sender_lamports
            &&& account_key(c.escrow) == (sender@, recipient@, args.id)
        }),
{
}

/// Settling moves lamports without making or losing any: a release splits
/// the account's balance between the recipient (the escrowed amount) and the
/// sender (the rest), and a cancel hands all of it to the sender.
pub proof fn lemma_settlement_conserves_lamports(
    accounts: Map<AccountSeeds, EscrowAccount>,
    key: AccountSeeds,
    signer: [u8; 32],
    slot: u64,
    proof_accepted: bool,
    recipient_lamports: u64,
    sender_lamports: u64,
)
    ensures
        finish_result(
            accounts,
            key,
            signer,
            slot,
            proof_accepted,
            recipient_lamports,
            sender_lamports,
        ) matches Ok(r) ==> r.recipient_lamports == recipient_lamports + accounts[key].escrow.amount
            && r.recipient_lamports + r.sender_lamports == recipient_lamports + sender_lamports
            + accounts[key].lamports,
        cancel_result(accounts, key, signer, slot, sender_lamports) matches Ok(c)
            ==> c.sender_lamports == sender_lamports + accounts[key].lamports,
{
}

/// A successful create stores an escrow of exactly the given parties and
/// arguments, and its event reports that escrow: the id, the sender as funder,
/// the recipient as beneficiary, the amount, and the `Created` step.
pub proof fn lemma_create_reports_escrow(
    accounts: Map<AccountSeeds, EscrowAccount>,
    sender: [u8; 32],
    recipient: [u8; 32],
    args: CreateEscrowArgs,
    bump: u8,
    rent: u64,
    sender_lamports: u64,
)
    requires
        create_result(accounts, sender, recipient, args, bump, rent, sender_lamports) is Ok,
    ensures
        ({
            let c = create_result(accounts, sender, recipient, args, bump, rent, sender_lamports)->Ok_0;
            &&& c.escrow.sender == sender
            &&& c.escrow.recipient == recipient
            &&& c.escrow.amount == args.amount
            &&& c.escrow.id == args.id
            &&& c.escrow.finish_after == args.finish_after
            &&& c.escrow.cancel_after == args.cancel_after
            &&& c.escrow.condition == args.condition
            &&& c.escrow.bump == bump
            &&& c.event.id == args.id
            &&& c.event.sender == sender
            &&& c.event.recipient == recipient
            &&& c.event.amount == args.amount
            &&& c.event.action == EscrowState::Created
            &&& c.event.sender == c.escrow.sender
            &&& c.event.recipient == c.escrow.recipient
        }),
{
}

/// A successful release was signed by the escrow's recipient once its finish
/// window was open (and, for a conditioned escrow, with an accepted proof);
/// it pays the recipient the escrowed amount, hands the sender the rest of the
/// account's balance, and its event reports the escrow as stored: its id, its
/// sender as funder, its recipient as beneficiary, its amount, and the
/// `Finished` step.
pub proof fn lemma_release_reports_escrow(
    accounts: Map<AccountSeeds, EscrowAccount>,
    key: AccountSeeds,
    signer: [u8; 32],
    slot: u64,
    proof_accepted: bool,
    recipient_lamports: u64,
    sender_lamports: u64,
)
    requires
        finish_result(
            accounts,
            key,
            signer,
            slot,
            proof_accepted,
            recipient_lamports,
            sender_lamports,
        ) is Ok,
    ensures
        ({
            let r = finish_result(
                accounts,
                key,
                signer,
                slot,
                proof_accepted,
                recipient_lamports,
                sender_lamports,
            )->Ok_0;
            let a = accounts[key];
            &&& accounts.contains_key(key)
            &&& signer@ == a.escrow.recipient@
            &&& (a.escrow.finish_after matches Some(f) ==> slot >= f)
            &&& (a.escrow.condition@ != Seq::new(32, |i: int| 0u8) ==> proof_accepted)
            &&& r.recipient_lamports == recipient_lamports + a.escrow.amount
            &&& r.sender_lamports + a.escrow.amount == sender_lamports + a.lamports
            &&& r.event.id == a.escrow.id
            &&& r.event.sender == a.escrow.sender
            &&& r.event.recipient == a.escrow.recipient
            &&& r.event.amount == a.escrow.amount
            &&& r.event.action == EscrowState::Finished
        }),
{
}

/// A successful cancel was signed by the escrow's sender once its cancel
/// window was open; it hands the sender the account's whole balance, and its
/// event reports the escrow as stored: its id, its sender as funder, its
/// recipient as beneficiary, its amount, and the `Cancelled` step.
pub proof fn lemma_cancel_reports_escrow(
    accounts: Map<AccountSeeds, EscrowAccount>,
    key: AccountSeeds,
    signer: [u8; 32],
    slot: u64,
    sender_lamports: u64,
)
    requires
        cancel_result(accounts, key, signer, slot, sender_lamports) is Ok,
    ensures
        ({
            let c = cancel_result(accounts, key, signer, slot, sender_lamports)->Ok_0;
            let a = accounts[key];
            &&& accounts.contains_key(key)
            &&& signer@ == a.escrow.sender@
            &&& a.escrow.cancel_after is Some
            &&& slot >= a.escrow.cancel_after->0
            &&& c.sender_lamports == sender_lamports + a.lamports
            &&& c.event.id == a.escrow.id
            &&& c.event.sender == a.escrow.sender
            &&& c.event.recipient == a.escrow.recipient
            &&& c.event.amount == a.escrow.amount
            &&& c.event.action == EscrowState::Cancelled
        }),
{
}

/// A settled escrow cannot be settled again: once a release or a cancel of
/// the account at `key` succeeds, the account is gone, and every later release
/// or cancel of it is refused, whoever signs, at any slot and with any proof.
pub proof fn lemma_settled_escrow_is_closed(
    accounts: Map<AccountSeeds, EscrowAccount>,
    key: AccountSeeds,
    signer: [u8; 32],
    slot: u64,
    proof_accepted: bool,
    recipient_lamports: u64,
    sender_lamports: u64,
    later_signer: [u8; 32],
    later_slot: u64,
    later_proof: bool,
    later_recipient_lamports: u64,
    later_sender_lamports: u64,
)
    requires
        finish_result(
            accounts,
            key,
            signer,
            slot,
            proof_accepted,
            recipient_lamports,
            sender_lamports,
        ) is Ok || cancel_result(accounts, key, signer, slot, sender_lamports) is Ok,
    ensures
        finish_result(
            accounts.remove(key),
            key,
            later_signer,
            later_slot,
            later_proof,
            later_recipient_lamports,
            later_sender_lamports,
        ) == Err::<Released, InstructionError>(InstructionError::AccountNotInitialized),
        cancel_result(accounts.remove(key), key, later_signer, later_slot, later_sender_lamports)
            == Err::<Cancelled, InstructionError>(InstructionError::AccountNotInitialized),
{
}

/// Each escrow of a sender and recipient lives at its own id: while one is
/// live, creating another under its id is refused, and its account does not
/// stand in the way of an escrow under any other id.
pub proof fn lemma_escrow_ids_per_pair(
    accounts: Map<AccountSeeds, EscrowAccount>,
    sender: [u8; 32],
    recipient: [u8; 32],
    args: CreateEscrowArgs,
    bump: u8,
    rent: u64,
    sender_lamports: u64,
    other: CreateEscrowArgs,
    other_bump: u8,
    other_rent: u64,
    other_sender_lamports: u64,
)
    requires
        create_result(accounts, sender, recipient, args, bump, rent, sender_lamports) is Ok,
    ensures
        ({
            let c = create_result(accounts, sender, recipient, args, bump, rent, sender_lamports)->Ok_0;
            let after = accounts.insert(
                (sender@, recipient@, args.id),
                EscrowAccount { escrow: c.escrow, lamports: c.account_lamports },
            );
            &&& other.id == args.id ==> create_result(
                after,
                sender,
                recipient,
                other,
                other_bump,
                other_rent,
                other_sender_lamports,
            ) == Err::<Created, InstructionError>(InstructionError::AccountInUse)
            &&& other.id != args.id ==> create_result(
                after,
                sender,
                recipient,
                other,
                other_bump,
                other_rent,
                other_sender_lamports,
            ) == create_result(
                accounts,
                sender,
                recipient,
                other,
                other_bump,
                other_rent,
                other_sender_lamports,
            )
        }),
{
}

/// Creating and then releasing an escrow pays the recipient the escrowed
/// amount and leaves the sender short of exactly that amount: the rent
/// reserve comes back when the account closes.
pub proof fn lemma_release_returns_rent(
    accounts: Map<AccountSeeds, EscrowAccount>,
    sender: [u8; 32],
    recipient: [u8; 32],
    args: CreateEscrowArgs,
    bump: u8,
    rent: u64,
    sender_lamports: u64,
    slot: u64,
    proof_accepted: bool,
    recipient_lamports: u64,
)
    requires
        create_result(accounts, sender, recipient, args, bump, rent, sender_lamports) is Ok,
        finish_check(created_escrow(sender, recipient, args, bump), recipient, slot, proof_accepted) is Ok,
        recipient_lamports + args.amount <= u64::MAX,
    ensures
        ({
            let c = create_result(accounts, sender, recipient, args, bump, rent, sender_lamports)->Ok_0;
            let key = (sender@, recipient@, args.id);
            let after = accounts.insert(key, EscrowAccount { escrow: c.escrow, lamports: c.account_lamports });
            finish_result(after, key, recipient, slot, proof_accepted, recipient_lamports, c.sender_lamports)
                == Ok::<Released, InstructionError>(
                Released {
                    recipient_lamports: (recipient_lamports + args.amount) as u64,
                    sender_lamports: (sender_lamports - args.amount) as u64,
                    event: event_of(c.escrow, EscrowState::Finished),
                },
            )
        }),
{
}

/// Creating and then cancelling an escrow gives the sender back everything
/// the creation took: the escrowed amount and the rent reserve.
pub proof fn lemma_cancel_refunds_in_full(
    accounts: Map<AccountSeeds, EscrowAccount>,
    sender: [u8; 32],
    recipient: [u8; 32],
    args: CreateEscrowArgs,
    bump: u8,
    rent: u64,
    sender_lamports: u64,
    slot: u64,
)
    requires
        create_result(accounts, sender, recipient, args, bump, rent, sender_lamports) is Ok,
        cancel_check(created_escrow(sender, recipient, args, bump), sender, slot) is Ok,
    ensures
        ({
            let c = create_result(accounts, sender, recipient, args, bump, rent, sender_lamports)->Ok_0;
            let key = (sender@, recipient@, args.id);
            let after = accounts.insert(key, EscrowAccount { escrow: c.escrow, lamports: c.account_lamports });
            cancel_result(after, key, sender, slot, c.sender_lamports) == Ok::<Cancelled, InstructionError>(
                Cancelled { sender_lamports, event: event_of(c.escrow, EscrowState::Cancelled) },
            )
        }),
{
}

/// Rebuilds, from the escrow's own state, the journal a valid receipt for its
/// release must carry: exactly the journal of [`settled_commitment`].
pub fn reconstruct_journal(escrow: &Escrow) -> (j: Vec<u8>)
    ensures
        j@ == journal_bytes(settled_commitment(*escrow)),
{
    let mut amount = [0u8; 32];
    let be = u64_to_be_bytes(escrow.amount);
    let mut i: usize = 0;
    while i < 8
        invariant
            i <= 8,
            amount@.len() == 32,
            be@ == be_bytes(escrow.amount as nat, 8),
            forall|k: int| 0 <= k < 24 ==> amount@[k] == 0,
            forall|k: int| 0 <= k < i ==> amount@[24 + k] == be@[k],
        decreases 8 - i,
    {
        amount[24 + i] = be[i];
        i = i + 1;
    }
    let key_len = u16_to_be_bytes(32);
    let empty_len = u16_to_be_bytes(0);
    let id = u64_to_be_bytes(escrow.id);
    let mut out: Vec<u8> = Vec::new();
    // version 1, Solana, success, conditions met
    out.push(1);
    out.push(1);
    out.push(1);
    out.push(2);
    let ghost head = out@;
    assert(head =~= seq![1u8, 1u8, 1u8, 2u8]);
    extend(&mut out, &key_len);
    extend(&mut out, &ID);
    extend(&mut out, &id);
    extend(&mut out, &key_len);
    extend(&mut out, &escrow.sender);
    extend(&mut out, &key_len);
    extend(&mut out, &escrow.recipient);
    let ghost before_kind = out@;
    out.push(0);
    assert(out@ =~= before_kind + seq![0u8]);
    extend(&mut out, &empty_len);
    extend(&mut out, &amount);
    extend(&mut out, &escrow.condition);
    proof {
        lemma_pow256_values();
        lemma_be_bytes_pad(escrow.amount as nat, 8, 24);
        assert(amount@ =~= zeros(24) + be_bytes(escrow.amount as nat, 8));
        assert(be_bytes(escrow.amount as nat, 32) == amount@);
        lemma_reconstructed_layout(*escrow, head, key_len@, empty_len@, id@, amount@);
    }
    out
}

#[verifier::rlimit(40)]
proof fn lemma_reconstructed_layout(
    e: Escrow,
    head: Seq<u8>,
    key_len: Seq<u8>,
    empty_len: Seq<u8>,
    id: Seq<u8>,
    amount: Seq<u8>,
)
    requires
        head == seq![1u8, 1u8, 1u8, 2u8],
        key_len == be_bytes(32, 2),
        empty_len == be_bytes(0, 2),
        id == be_bytes(e.id as nat, 8),
        amount == be_bytes(e.amount as nat, 32),
    ensures
        journal_bytes(settled_commitment(e)) =~= head + key_len + ID@ + id + key_len + e.sender@
            + key_len + e.recipient@ + seq![0u8] + empty_len + amount + e.condition@,
{
    broadcast use vstd::seq_lib::group_seq_properties;

    assert(ID@.len() == 32);
    assert(e.sender@.len() == 32);
    assert(e.recipient@.len() == 32);
    assert(Seq::<u8>::empty().len() == 0);
    let c = settled_commitment(e);
    assert(journal_bytes(c) =~= seq![1u8] + (seq![1u8] + (seq![1u8, 2u8] + ((key_len + ID@) + (id + (
    (key_len + e.sender@) + ((key_len + e.recipient@) + (seq![0u8] + ((empty_len
        + Seq::<u8>::empty()) + (amount + e.condition@))))))))));
}

/// The journal the program rebuilds decodes to the settlement it binds: a
/// receipt for it attests exactly this escrow, amount and condition.
pub proof fn lemma_reconstructed_journal_decodes(e: Escrow)
    ensures
        parse_journal(journal_bytes(settled_commitment(e))) == Ok::<
            JournalView,
            crate::error::CommitmentError,
        >(settled_commitment(e)),
{
    lemma_pow256_values();
    crate::be::lemma_pow256_monotone(8, 32);
    assert(encodable(settled_commitment(e)));
    lemma_journal_roundtrip(settled_commitment(e));
}

/// The guest and the program agree: for the guest input that describes an
/// escrow (this program on Solana, its id and parties, a native amount equal
/// to the escrowed one, its condition commitment), the commitment the guest
/// writes on success is exactly the one the program rebuilds.
pub proof fn lemma_guest_commitment_matches_program(input: ProofInput, e: Escrow)
    requires
        input.chain == Chain::Solana,
        input.agent_id@ == ID@,
        input.escrow_id == e.id,
        input.escrow.sender@ == e.sender@,
        input.escrow.recipient@ == e.recipient@,
        input.escrow.asset.kind == AssetKind::Native,
        input.escrow.asset.agent_id is None,
        input.escrow.asset.amount@ == e.amount as nat,
        condition_commitment(input.escrow.condition) == e.condition@,
    ensures
        commitment_of(input, ExecutionResult::Success(ExecutionState::ConditionsMet))
            == settled_commitment(e),
{
}

/// Escrows that differ in id, parties, amount or condition rebuild different
/// journals, so a receipt for one never matches another.
pub proof fn lemma_distinct_escrows_distinct_journals(e1: Escrow, e2: Escrow)
    requires
        e1.id != e2.id || e1.sender@ != e2.sender@ || e1.recipient@ != e2.recipient@ || e1.amount
            != e2.amount || e1.condition@ != e2.condition@,
    ensures
        journal_bytes(settled_commitment(e1)) != journal_bytes(settled_commitment(e2)),
{
    lemma_reconstructed_journal_decodes(e1);
    lemma_reconstructed_journal_decodes(e2);
}

/// The instruction data of the router's `verify` call for `escrow`: the
/// first 8 bytes of `sha256("global:verify")`, then `seal` as given, the pinned
/// image id, and `sha256` of the rebuilt journal.
pub fn verify_instruction_data(escrow: &Escrow, seal: &[u8]) -> (d: Vec<u8>)
    ensures
        d@ == sha256(VERIFY_SELECTOR_NAME@).subrange(0, 8) + seal@ + IMAGE_ID@ + sha256(
            journal_bytes(settled_commitment(*escrow)),
        ),
{
    let journal = reconstruct_journal(escrow);
    let journal_digest = sha256_digest(journal.as_slice());
    let discriminator = sha256_digest(&VERIFY_SELECTOR_NAME);
    let mut data: Vec<u8> = Vec::new();
    let mut i: usize = 0;
    while i < 8
        invariant
            i <= 8,
            discriminator@.len() == 32,
            data@ =~= discriminator@.subrange(0, i as int),
        decreases 8 - i,
    {
        data.push(discriminator[i]);
        i = i + 1;
    }
    extend(&mut data, seal);
    extend(&mut data, &IMAGE_ID);
    extend(&mut data, &journal_digest);
    data
}

/// An account handed to a cross-program call: its address and whether it
/// signs and is written.
#[derive(Debug, Clone, Copy, PartialEq, Eq)]
pub struct AccountMeta {
    pub pubkey: [u8; 32],
    pub is_signer: bool,
    pub is_writable: bool,
}

/// The router `verify` call a conditioned release makes: the program called,
/// the accounts it is told of, its instruction data, and the accounts handed
/// to the runtime with it.
#[derive(Debug, Clone)]
pub struct RouterCall {
    pub program_id: [u8; 32],
    pub accounts: Vec<AccountMeta>,
    pub data: Vec<u8>,
    pub infos: Vec<AccountMeta>,
}

/// Copies `s` into a new vector.
fn metas_of(s: &[AccountMeta]) -> (v: Vec<AccountMeta>)
    ensures
        v@ == s@,
{
    let mut v: Vec<AccountMeta> = Vec::new();
    let mut i: usize = 0;
    while i < s.len()
        invariant
            i <= s@.len(),
            v@ == s@.subrange(0, i as int),
        decreases s@.len() - i,
    {
        v.push(s[i]);
        i = i + 1;
        assert(v@ =~= s@.subrange(0, i as int));
    }
    assert(s@.subrange(0, s@.len() as int) =~= s@);
    v
}

/// The call that verifies a conditioned escrow's release proof: addressed to
/// the pinned [`VERIFIER_ROUTER`], telling it of `router_accounts` in order,
/// with [`verify_instruction_data`] for `escrow` and `seal`, and handing the
/// runtime `router_accounts` followed by the router's own account. The release
/// goes ahead only if the router accepts this call.
pub fn verify_release_call(
    escrow: &Escrow,
    router_accounts: &[AccountMeta],
    verifier_router: AccountMeta,
    seal: &[u8],
) -> (c: RouterCall)
    ensures
        c.program_id == VERIFIER_ROUTER,
        c.accounts@ == router_accounts@,
        c.data@ == sha256(VERIFY_SELECTOR_NAME@).subrange(0, 8) + seal@ + IMAGE_ID@ + sha256(
            journal_bytes(settled_commitment(*escrow)),
        ),
        c.infos@ == router_accounts@.push(verifier_router),
{
    let data = verify_instruction_data(escrow, seal);
    let accounts = metas_of(router_accounts);
    let mut infos = metas_of(router_accounts);
    infos.push(verifier_router);
    RouterCall { program_id: VERIFIER_ROUTER, accounts, data, infos }
}

} // verus!
