//! Binding public commitment for the zero-knowledge proof journal.
//!
//! The guest commits a [`PublicCommitment`] to the receipt journal so a valid
//! receipt is tied to exactly one escrow settlement: an on-chain verifier
//! rebuilds the same bytes from its own state and releases only on a match.
//! The witness that satisfies the condition never enters the journal.
//!
//! Layout (big-endian throughout): version `1`, chain tag, outcome tag (and,
//! for a success, the execution-state tag), length-prefixed agent id, 8-byte
//! escrow id, length-prefixed sender, length-prefixed recipient, asset-kind tag,
//! length-prefixed asset token, 32-byte amount, 32-byte condition commitment.
//! Each length prefix is a `u16`.
use crate::asset::{Asset, AssetKind};
use crate::be::{
    be_bytes, be_to_u64, be_value, lemma_be_bytes_pad, lemma_be_bytes_roundtrip,
    lemma_be_value_bound, lemma_be_value_bytes, lemma_min_be_bytes, lemma_min_be_len,
    lemma_pow256_values, min_be_bytes, pow256, u16_to_be_bytes, u64_to_be_bytes, zeros,
};
use crate::bignum::BigNumber;
use crate::error::{CommitmentError, TagField};
use crate::interface::{Chain, ExecutionState};
use crate::outside::{sha256, sha256_digest};
use vstd::prelude::*;

verus! {

/// The journal layout version.
pub const JOURNAL_VERSION: u8 = 1;

/// Width, in bytes, of the big-endian amount field (256-bit).
pub const AMOUNT_WIDTH: usize = 32;

/// Largest length a length-prefixed field can carry.
pub const MAX_FIELD_LEN: usize = 0xffff;

/// Outcome of escrow execution as committed to the public journal.
#[derive(Debug, Clone, Copy, PartialEq, Eq, Structural)]
pub enum ExecutionResult {
    /// Conditions were satisfied; the escrow reached the given terminal state.
    Success(ExecutionState),
    /// Execution failed; funds must not be released.
    Failure,
}

/// The escrow whose conditions the guest verifies: its parties by their raw
/// address bytes, its asset, and its release condition by the condition's
/// witness-free commitment (`None` when the escrow has no condition).
#[derive(Debug, Clone)]
pub struct EscrowTerms {
    /// Raw address bytes of the funding party.
    pub sender: Vec<u8>,
    /// Raw address bytes of the recipient.
    pub recipient: Vec<u8>,
    /// The asset under escrow.
    pub asset: Asset,
    /// Commitment to the release condition, if there is one.
    pub condition: Option<[u8; 32]>,
}

/// The private input handed to the guest: the escrow plus the on-chain
/// identifiers needed to bind the proof to a specific settlement.
#[derive(Debug, Clone)]
pub struct ProofInput {
    /// The escrow whose conditions the guest verifies.
    pub escrow: EscrowTerms,
    /// Network the escrow settles on.
    pub chain: Chain,
    /// Raw bytes of the on-chain escrow program id or contract address.
    pub agent_id: Vec<u8>,
    /// Unique on-chain identifier for this escrow instance.
    pub escrow_id: u64,
}

/// The commitment to an optional release condition: the condition's own, or
/// all-zero when there is none.
pub open spec fn condition_commitment(condition: Option<[u8; 32]>) -> Seq<u8> {
    match condition {
        Some(c) => c@,
        None => Seq::new(32, |i: int| 0u8),
    }
}

/// The commitment the guest writes for `input` and `outcome`.
pub open spec fn commitment_of(input: ProofInput, outcome: ExecutionResult) -> JournalView {
    JournalView {
        chain: input.chain,
        agent_id: input.agent_id@,
        escrow_id: input.escrow_id,
        sender: input.escrow.sender@,
        recipient: input.escrow.recipient@,
        asset_kind: input.escrow.asset.kind,
        asset_token: match input.escrow.asset.agent_id {
            Some(t) => t@,
            None => Seq::empty(),
        },
        amount: input.escrow.asset.amount@,
        condition: condition_commitment(input.escrow.condition),
        outcome,
    }
}

/// The public commitment the guest writes to the receipt journal.
#[derive(Debug, Clone, PartialEq, Eq)]
pub struct PublicCommitment {
    /// Network the escrow settles on.
    pub chain: Chain,
    /// Raw bytes of the on-chain program id / contract address.
    pub agent_id: Vec<u8>,
    /// Unique on-chain identifier for this escrow instance.
    pub escrow_id: u64,
    /// Raw address bytes of the funding party.
    pub sender: Vec<u8>,
    /// Raw address bytes of the recipient.
    pub recipient: Vec<u8>,
    /// Kind of asset under escrow.
    pub asset_kind: AssetKind,
    /// Raw bytes of the token contract / mint (empty for the native coin).
    pub asset_token: Vec<u8>,
    /// Amount under escrow, in the smallest unit.
    pub amount: BigNumber,
    /// Witness-free commitment to the release condition (all-zero when none).
    pub condition: [u8; 32],
    /// Pass/fail outcome of executing the escrow.
    pub outcome: ExecutionResult,
}

/// The mathematical content of a [`PublicCommitment`].
pub struct JournalView {
    pub chain: Chain,
    pub agent_id: Seq<u8>,
    pub escrow_id: u64,
    pub sender: Seq<u8>,
    pub recipient: Seq<u8>,
    pub asset_kind: AssetKind,
    pub asset_token: Seq<u8>,
    pub amount: nat,
    pub condition: Seq<u8>,
    pub outcome: ExecutionResult,
}

impl View for PublicCommitment {
    type V = JournalView;

    open spec fn view(&self) -> JournalView {
        JournalView {
            chain: self.chain,
            agent_id: self.agent_id@,
            escrow_id: self.escrow_id,
            sender: self.sender@,
            recipient: self.recipient@,
            asset_kind: self.asset_kind,
            asset_token: self.asset_token@,
            amount: self.amount@,
            condition: self.condition@,
            outcome: self.outcome,
        }
    }
}

pub open spec fn chain_tag_of(chain: Chain) -> u8 {
    match chain {
        Chain::Ethereum => 0,
        Chain::Solana => 1,
    }
}

pub open spec fn chain_of_tag(tag: u8) -> Option<Chain> {
    if tag == 0 {
        Some(Chain::Ethereum)
    } else if tag == 1 {
        Some(Chain::Solana)
    } else {
        None
    }
}

pub open spec fn asset_kind_tag_of(kind: AssetKind) -> u8 {
    match kind {
        AssetKind::Native => 0,
        AssetKind::Token => 1,
    }
}

pub open spec fn asset_kind_of_tag(tag: u8) -> Option<AssetKind> {
    if tag == 0 {
        Some(AssetKind::Native)
    } else if tag == 1 {
        Some(AssetKind::Token)
    } else {
        None
    }
}

pub open spec fn state_tag_of(state: ExecutionState) -> u8 {
    match state {
        ExecutionState::Initialized => 0,
        ExecutionState::Funded => 1,
        ExecutionState::ConditionsMet => 2,
    }
}

pub open spec fn state_of_tag(tag: u8) -> Option<ExecutionState> {
    if tag == 0 {
        Some(ExecutionState::Initialized)
    } else if tag == 1 {
        Some(ExecutionState::Funded)
    } else if tag == 2 {
        Some(ExecutionState::ConditionsMet)
    } else {
        None
    }
}

/// A field preceded by its `u16` big-endian length.
pub open spec fn length_prefixed(s: Seq<u8>) -> Seq<u8> {
    be_bytes(s.len(), 2) + s
}

/// The outcome tag, followed by the state tag for a success.
pub open spec fn outcome_bytes(outcome: ExecutionResult) -> Seq<u8> {
    match outcome {
        ExecutionResult::Success(state) => seq![1u8, state_tag_of(state)],
        ExecutionResult::Failure => seq![0u8],
    }
}

/// The journal bytes of a commitment.
pub open spec fn journal_bytes(j: JournalView) -> Seq<u8> {
    seq![JOURNAL_VERSION] + (seq![chain_tag_of(j.chain)] + (outcome_bytes(j.outcome) + (
    length_prefixed(j.agent_id) + (be_bytes(j.escrow_id as nat, 8) + (length_prefixed(j.sender)
        + (length_prefixed(j.recipient) + (seq![asset_kind_tag_of(j.asset_kind)] + (
    length_prefixed(j.asset_token) + (be_bytes(j.amount, 32) + j.condition)))))))))
}

/// Whether every field of `j` fits its slot in the journal.
pub open spec fn encodable(j: JournalView) -> bool {
    &&& j.agent_id.len() <= MAX_FIELD_LEN
    &&& j.sender.len() <= MAX_FIELD_LEN
    &&& j.recipient.len() <= MAX_FIELD_LEN
    &&& j.asset_token.len() <= MAX_FIELD_LEN
    &&& j.amount < pow256(32)
    &&& j.condition.len() == 32
}

/// What encoding `j` gives: the journal, or the first field (in layout order)
/// that does not fit.
pub open spec fn journal_encoding(j: JournalView) -> Result<Seq<u8>, CommitmentError> {
    if j.agent_id.len() > MAX_FIELD_LEN {
        Err(CommitmentError::FieldTooLong(j.agent_id.len() as usize))
    } else if j.sender.len() > MAX_FIELD_LEN {
        Err(CommitmentError::FieldTooLong(j.sender.len() as usize))
    } else if j.recipient.len() > MAX_FIELD_LEN {
        Err(CommitmentError::FieldTooLong(j.recipient.len() as usize))
    } else if j.asset_token.len() > MAX_FIELD_LEN {
        Err(CommitmentError::FieldTooLong(j.asset_token.len() as usize))
    } else if j.amount >= pow256(32) {
        Err(CommitmentError::AmountTooLarge)
    } else {
        Ok(journal_bytes(j))
    }
}

/// Reads `n` bytes at `off`: the bytes and the next offset.
pub open spec fn read_bytes(b: Seq<u8>, off: int, n: int) -> Result<(Seq<u8>, int), CommitmentError> {
    if off + n <= b.len() {
        Ok((b.subrange(off, off + n), off + n))
    } else {
        Err(CommitmentError::Truncated(off as usize))
    }
}

/// Reads a `u16`-length-prefixed field at `off`.
pub open spec fn read_prefixed(b: Seq<u8>, off: int) -> Result<(Seq<u8>, int), CommitmentError> {
    match read_bytes(b, off, 2) {
        Ok((l, o)) => read_bytes(b, o, be_value(l) as int),
        Err(e) => Err(e),
    }
}

/// Reads the outcome whose tag is `tag`, continuing at `off`.
pub open spec fn parse_outcome(b: Seq<u8>, tag: u8, off: int) -> Result<
    (ExecutionResult, int),
    CommitmentError,
> {
    if tag == 0 {
        Ok((ExecutionResult::Failure, off))
    } else if tag == 1 {
        match read_bytes(b, off, 1) {
            Ok((s, o)) => match state_of_tag(s[0]) {
                Some(state) => Ok((ExecutionResult::Success(state), o)),
                None => Err(CommitmentError::UnknownTag { field: TagField::ExecutionState, tag: s[0] }),
            },
            Err(e) => Err(e),
        }
    } else {
        Err(CommitmentError::UnknownTag { field: TagField::Outcome, tag })
    }
}

/// Reads the asset part: kind tag, token, amount, condition; then requires the end.
pub open spec fn parse_asset(
    b: Seq<u8>,
    off: int,
    chain: Chain,
    outcome: ExecutionResult,
    agent_id: Seq<u8>,
    escrow_id: u64,
    sender: Seq<u8>,
    recipient: Seq<u8>,
) -> Result<JournalView, CommitmentError> {
    match read_bytes(b, off, 1) {
        Err(e) => Err(e),
        Ok((k, o1)) => match asset_kind_of_tag(k[0]) {
            None => Err(CommitmentError::UnknownTag { field: TagField::AssetKind, tag: k[0] }),
            Some(asset_kind) => match read_prefixed(b, o1) {
                Err(e) => Err(e),
                Ok((asset_token, o2)) => match read_bytes(b, o2, 32) {
                    Err(e) => Err(e),
                    Ok((amount, o3)) => match read_bytes(b, o3, 32) {
                        Err(e) => Err(e),
                        Ok((condition, o4)) => if o4 != b.len() {
                            Err(CommitmentError::TrailingBytes(o4 as usize))
                        } else {
                            Ok(
                                JournalView {
                                    chain,
                                    agent_id,
                                    escrow_id,
                                    sender,
                                    recipient,
                                    asset_kind,
                                    asset_token,
                                    amount: be_value(amount),
                                    condition,
                                    outcome,
                                },
                            )
                        },
                    },
                },
            },
        },
    }
}

/// Reads the parties: agent id, escrow id, sender, recipient; then the asset part.
pub open spec fn parse_parties(b: Seq<u8>, off: int, chain: Chain, outcome: ExecutionResult) -> Result<
    JournalView,
    CommitmentError,
> {
    match read_prefixed(b, off) {
        Err(e) => Err(e),
        Ok((agent_id, o1)) => match read_bytes(b, o1, 8) {
            Err(e) => Err(e),
            Ok((id, o2)) => match read_prefixed(b, o2) {
                Err(e) => Err(e),
                Ok((sender, o3)) => match read_prefixed(b, o3) {
                    Err(e) => Err(e),
                    Ok((recipient, o4)) => parse_asset(
                        b,
                        o4,
                        chain,
                        outcome,
                        agent_id,
                        be_value(id) as u64,
                        sender,
                        recipient,
                    ),
                },
            },
        },
    }
}

/// What decoding the journal `b` gives.
pub open spec fn parse_journal(b: Seq<u8>) -> Result<JournalView, CommitmentError> {
    match read_bytes(b, 0, 1) {
        Err(e) => Err(e),
        Ok((v, o0)) => if v[0] != JOURNAL_VERSION {
            Err(CommitmentError::UnknownVersion(v[0]))
        } else {
            match read_bytes(b, o0, 1) {
                Err(e) => Err(e),
                Ok((c, o1)) => match chain_of_tag(c[0]) {
                    None => Err(CommitmentError::UnknownTag { field: TagField::Chain, tag: c[0] }),
                    Some(chain) => match read_bytes(b, o1, 1) {
                        Err(e) => Err(e),
                        Ok((t, o2)) => match parse_outcome(b, t[0], o2) {
                            Err(e) => Err(e),
                            Ok((outcome, o3)) => parse_parties(b, o3, chain, outcome),
                        },
                    },
                },
            }
        },
    }
}

proof fn lemma_read(b: Seq<u8>, off: int, x: Seq<u8>, r: Seq<u8>)
    requires
        0 <= off <= b.len(),
        b.skip(off) == x + r,
    ensures
        read_bytes(b, off, x.len() as int) == Ok::<(Seq<u8>, int), CommitmentError>(
            (x, off + x.len()),
        ),
        b.skip(off + x.len()) == r,
{
    assert(b.skip(off).len() == b.len() - off);
    assert forall|i: int| 0 <= i < x.len() implies b.subrange(off, off + x.len())[i] == x[i] by {
        assert(b.skip(off)[i] == b[off + i]);
        assert((x + r)[i] == x[i]);
    }
    assert(b.subrange(off, off + x.len()) =~= x);
    assert forall|i: int| 0 <= i < r.len() implies b.skip(off + x.len())[i] == r[i] by {
        assert(b.skip(off)[x.len() + i] == b[off + x.len() + i]);
        assert((x + r)[x.len() + i] == r[i]);
    }
    assert(b.skip(off + x.len()) =~= r);
}

proof fn lemma_read_prefixed(b: Seq<u8>, off: int, x: Seq<u8>, r: Seq<u8>)
    requires
        0 <= off <= b.len(),
        b.skip(off) == length_prefixed(x) + r,
        x.len() <= MAX_FIELD_LEN,
    ensures
        read_prefixed(b, off) == Ok::<(Seq<u8>, int), CommitmentError>((x, off + 2 + x.len())),
        b.skip(off + 2 + x.len()) == r,
{
    let l = be_bytes(x.len(), 2);
    crate::be::lemma_be_bytes_value(x.len(), 2);
    lemma_pow256_values();
    lemma_be_bytes_roundtrip(x.len(), 2);
    assert(length_prefixed(x) + r =~= l + (x + r));
    lemma_read(b, off, l, x + r);
    lemma_read(b, off + 2, x, r);
}

#[verifier::opaque]
spec fn asset_tail(j: JournalView) -> Seq<u8> {
    seq![asset_kind_tag_of(j.asset_kind)] + (length_prefixed(j.asset_token) + (be_bytes(j.amount, 32)
        + j.condition))
}

#[verifier::opaque]
spec fn parties_tail(j: JournalView) -> Seq<u8> {
    length_prefixed(j.agent_id) + (be_bytes(j.escrow_id as nat, 8) + (length_prefixed(j.sender) + (
    length_prefixed(j.recipient) + asset_tail(j))))
}

proof fn lemma_parse_asset_of(b: Seq<u8>, off: int, j: JournalView)
    requires
        encodable(j),
        0 <= off <= b.len(),
        b.skip(off) == asset_tail(j),
    ensures
        parse_asset(b, off, j.chain, j.outcome, j.agent_id, j.escrow_id, j.sender, j.recipient)
            == Ok::<JournalView, CommitmentError>(j),
{
    reveal(asset_tail);
    let t10 = j.condition;
    let t9 = be_bytes(j.amount, 32) + t10;
    let t8 = length_prefixed(j.asset_token) + t9;
    lemma_read(b, off, seq![asset_kind_tag_of(j.asset_kind)], t8);
    let o8 = off + 1;
    lemma_read_prefixed(b, o8, j.asset_token, t9);
    let o9 = o8 + 2 + j.asset_token.len();
    crate::be::lemma_be_bytes_value(j.amount, 32);
    lemma_read(b, o9, be_bytes(j.amount, 32), t10);
    lemma_be_bytes_roundtrip(j.amount, 32);
    let o10 = o9 + 32;
    assert(t10 =~= t10 + Seq::<u8>::empty());
    lemma_read(b, o10, t10, Seq::<u8>::empty());
    assert(b.skip(o10 + 32).len() == 0);
}

proof fn lemma_parse_parties_of(b: Seq<u8>, off: int, j: JournalView)
    requires
        encodable(j),
        0 <= off <= b.len(),
        b.skip(off) == parties_tail(j),
    ensures
        parse_parties(b, off, j.chain, j.outcome) == Ok::<JournalView, CommitmentError>(j),
{
    reveal(parties_tail);
    let t7 = asset_tail(j);
    let t6 = length_prefixed(j.recipient) + t7;
    let t5 = length_prefixed(j.sender) + t6;
    let t4 = be_bytes(j.escrow_id as nat, 8) + t5;
    lemma_read_prefixed(b, off, j.agent_id, t4);
    let o4 = off + 2 + j.agent_id.len();
    crate::be::lemma_be_bytes_value(j.escrow_id as nat, 8);
    lemma_read(b, o4, be_bytes(j.escrow_id as nat, 8), t5);
    lemma_pow256_values();
    lemma_be_bytes_roundtrip(j.escrow_id as nat, 8);
    let o5 = o4 + 8;
    lemma_read_prefixed(b, o5, j.sender, t6);
    let o6 = o5 + 2 + j.sender.len();
    lemma_read_prefixed(b, o6, j.recipient, t7);
    let o7 = o6 + 2 + j.recipient.len();
    lemma_parse_asset_of(b, o7, j);
}

/// The version, chain and outcome of a journal decode to those of `j`, and the
/// parties start right after them.
proof fn lemma_parse_head_of(b: Seq<u8>, j: JournalView) -> (o3: int)
    requires
        encodable(j),
        b == seq![JOURNAL_VERSION] + (seq![chain_tag_of(j.chain)] + (outcome_bytes(j.outcome)
            + parties_tail(j))),
    ensures
        0 <= o3 <= b.len(),
        b.skip(o3) == parties_tail(j),
        read_bytes(b, 0, 1) == Ok::<(Seq<u8>, int), CommitmentError>((seq![JOURNAL_VERSION], 1)),
        read_bytes(b, 1, 1) == Ok::<(Seq<u8>, int), CommitmentError>(
            (seq![chain_tag_of(j.chain)], 2),
        ),
        read_bytes(b, 2, 1) == Ok::<(Seq<u8>, int), CommitmentError>(
            (seq![outcome_bytes(j.outcome)[0]], 3),
        ),
        parse_outcome(b, outcome_bytes(j.outcome)[0], 3) == Ok::<
            (ExecutionResult, int),
            CommitmentError,
        >((j.outcome, o3)),
{
    let t3 = parties_tail(j);
    let t2 = outcome_bytes(j.outcome) + t3;
    let t1 = seq![chain_tag_of(j.chain)] + t2;
    assert(b.skip(0) =~= b);
    lemma_read(b, 0, seq![JOURNAL_VERSION], t1);
    lemma_read(b, 1, seq![chain_tag_of(j.chain)], t2);
    match j.outcome {
        ExecutionResult::Success(st) => {
            assert(t2 =~= seq![1u8] + (seq![state_tag_of(st)] + t3));
            lemma_read(b, 2, seq![1u8], seq![state_tag_of(st)] + t3);
            lemma_read(b, 3, seq![state_tag_of(st)], t3);
            4
        },
        ExecutionResult::Failure => {
            lemma_read(b, 2, seq![0u8], t3);
            3
        },
    }
}

/// Decoding the journal of a commitment gives the commitment back, for every
/// commitment whose fields fit the layout.
pub proof fn lemma_journal_roundtrip(j: JournalView)
    requires
        encodable(j),
    ensures
        parse_journal(journal_bytes(j)) == Ok::<JournalView, CommitmentError>(j),
{
    let b = journal_bytes(j);
    assert(b == seq![JOURNAL_VERSION] + (seq![chain_tag_of(j.chain)] + (outcome_bytes(j.outcome)
        + parties_tail(j)))) by {
        reveal(parties_tail);
        reveal(asset_tail);
    }
    let o3 = lemma_parse_head_of(b, j);
    lemma_parse_parties_of(b, o3, j);
}

/// Two commitments with the same journal are the same commitment: the journal
/// binds every field.
pub proof fn lemma_journal_injective(a: JournalView, b: JournalView)
    requires
        encodable(a),
        encodable(b),
        journal_bytes(a) == journal_bytes(b),
    ensures
        a == b,
{
    lemma_journal_roundtrip(a);
    lemma_journal_roundtrip(b);
}

/// A successful read at `off` splits what follows into the bytes read and the rest.
proof fn lemma_read_split(b: Seq<u8>, off: int, n: int)
    requires
        0 <= off,
        0 <= n,
        read_bytes(b, off, n) is Ok,
    ensures
        ({
            let (x, o) = read_bytes(b, off, n)->Ok_0;
            &&& b.skip(off) =~= x + b.skip(o)
            &&& x.len() == n
            &&& o == off + n
            &&& o <= b.len()
        }),
{
}

proof fn lemma_read_prefixed_split(b: Seq<u8>, off: int)
    requires
        0 <= off,
        read_prefixed(b, off) is Ok,
    ensures
        ({
            let (x, o) = read_prefixed(b, off)->Ok_0;
            &&& b.skip(off) =~= length_prefixed(x) + b.skip(o)
            &&& x.len() <= MAX_FIELD_LEN
            &&& o <= b.len()
            &&& off <= o
        }),
{
    let (l, o1) = read_bytes(b, off, 2)->Ok_0;
    lemma_read_split(b, off, 2);
    lemma_be_value_bound(l);
    lemma_pow256_values();
    lemma_read_split(b, o1, be_value(l) as int);
    let (x, o) = read_prefixed(b, off)->Ok_0;
    lemma_be_value_bytes(l);
    assert(l =~= be_bytes(x.len(), 2));
}

/// Every journal that decodes is exactly the encoding of what it decodes to:
/// a commitment has one journal.
pub proof fn lemma_journal_canonical(b: Seq<u8>)
    ensures
        parse_journal(b) matches Ok(j) ==> encodable(j) && journal_bytes(j) == b,
{
    if parse_journal(b) is Ok {
        let j = parse_journal(b)->Ok_0;
        lemma_read_split(b, 0, 1);
        let (v, o0) = read_bytes(b, 0, 1)->Ok_0;
        lemma_read_split(b, o0, 1);
        let (c, o1) = read_bytes(b, o0, 1)->Ok_0;
        lemma_read_split(b, o1, 1);
        let (t, o2) = read_bytes(b, o1, 1)->Ok_0;
        let (outcome, o3) = parse_outcome(b, t[0], o2)->Ok_0;
        if t[0] == 1 {
            lemma_read_split(b, o2, 1);
            let (s, os) = read_bytes(b, o2, 1)->Ok_0;
            assert(b.skip(o1) =~= outcome_bytes(outcome) + b.skip(o3));
        } else {
            assert(b.skip(o1) =~= outcome_bytes(outcome) + b.skip(o3));
        }
        lemma_read_prefixed_split(b, o3);
        let (agent_id, p1) = read_prefixed(b, o3)->Ok_0;
        lemma_read_split(b, p1, 8);
        let (id, p2) = read_bytes(b, p1, 8)->Ok_0;
        lemma_read_prefixed_split(b, p2);
        let (sender, p3) = read_prefixed(b, p2)->Ok_0;
        lemma_read_prefixed_split(b, p3);
        let (recipient, p4) = read_prefixed(b, p3)->Ok_0;
        lemma_read_split(b, p4, 1);
        let (k, q1) = read_bytes(b, p4, 1)->Ok_0;
        lemma_read_prefixed_split(b, q1);
        let (asset_token, q2) = read_prefixed(b, q1)->Ok_0;
        lemma_read_split(b, q2, 32);
        let (amount, q3) = read_bytes(b, q2, 32)->Ok_0;
        lemma_read_split(b, q3, 32);
        let (condition, q4) = read_bytes(b, q3, 32)->Ok_0;
        lemma_be_value_bound(id);
        lemma_pow256_values();
        lemma_be_value_bytes(id);
        lemma_be_value_bound(amount);
        lemma_be_value_bytes(amount);
        assert(b.skip(q4) =~= Seq::<u8>::empty());
        assert(b.skip(0) =~= b);
        assert(j.escrow_id as nat == be_value(id));
        assert(be_bytes(j.escrow_id as nat, 8) =~= id);
        assert(be_bytes(j.amount, 32) =~= amount);
        assert(v =~= seq![JOURNAL_VERSION]);
        assert(c =~= seq![chain_tag_of(j.chain)]);
        assert(k =~= seq![asset_kind_tag_of(j.asset_kind)]);
        assert(journal_bytes(j) =~= b);
    }
}

/// Where the asset-kind byte stands in the journal of `j`: after the version
/// and chain bytes, the outcome (two bytes for a success, one for a failure),
/// the length-prefixed agent id, the 8-byte escrow id, and the length-prefixed
/// sender and recipient.
pub open spec fn asset_kind_offset(j: JournalView) -> int {
    2 + (if j.outcome is Success {
        2int
    } else {
        1int
    }) + (2 + j.agent_id.len()) + 8 + (2 + j.sender.len()) + (2 + j.recipient.len())
}

/// The tag bytes of a journal: it starts with version 1; the chain byte is 0
/// for Ethereum and 1 for Solana; the outcome byte is 1 for a success
/// (followed by the state byte: 0 initialized, 1 funded, 2 conditions met)
/// and 0 for a failure; and the asset-kind byte is 0 for the native coin and
/// 1 for a token.
pub proof fn lemma_journal_tags(j: JournalView)
    ensures
        journal_bytes(j)[0] == 1u8,
        journal_bytes(j)[1] == (if j.chain == Chain::Ethereum {
            0u8
        } else {
            1u8
        }),
        journal_bytes(j)[2] == (if j.outcome is Success {
            1u8
        } else {
            0u8
        }),
        j.outcome == ExecutionResult::Success(ExecutionState::Initialized) ==> journal_bytes(j)[3]
            == 0u8,
        j.outcome == ExecutionResult::Success(ExecutionState::Funded) ==> journal_bytes(j)[3] == 1u8,
        j.outcome == ExecutionResult::Success(ExecutionState::ConditionsMet) ==> journal_bytes(j)[3]
            == 2u8,
        0 <= asset_kind_offset(j) < journal_bytes(j).len(),
        journal_bytes(j)[asset_kind_offset(j)] == (if j.asset_kind == AssetKind::Native {
            0u8
        } else {
            1u8
        }),
{
    lemma_journal_layout(j);
    crate::be::lemma_be_bytes_value(j.agent_id.len(), 2);
    crate::be::lemma_be_bytes_value(j.escrow_id as nat, 8);
    crate::be::lemma_be_bytes_value(j.sender.len(), 2);
    crate::be::lemma_be_bytes_value(j.recipient.len(), 2);
    let head = seq![JOURNAL_VERSION] + seq![chain_tag_of(j.chain)] + outcome_bytes(j.outcome);
    let before = head + length_prefixed(j.agent_id) + be_bytes(j.escrow_id as nat, 8)
        + length_prefixed(j.sender) + length_prefixed(j.recipient);
    let after = length_prefixed(j.asset_token) + be_bytes(j.amount, 32) + j.condition;
    let tag = seq![asset_kind_tag_of(j.asset_kind)];
    assert(journal_bytes(j) =~= before + tag + after);
    assert(before.len() == asset_kind_offset(j));
    assert((before + tag + after)[before.len() as int] == tag[0]);
    assert(journal_bytes(j) =~= head + (journal_bytes(j).subrange(head.len() as int, journal_bytes(j).len() as int)));
    assert(journal_bytes(j)[0] == head[0]);
    assert(journal_bytes(j)[1] == head[1]);
    assert(journal_bytes(j)[2] == head[2]);
    if j.outcome is Success {
        assert(journal_bytes(j)[3] == head[3]);
    }
}

/// The journal, concatenated field by field from the left.
proof fn lemma_journal_layout(j: JournalView)
    ensures
        journal_bytes(j) == seq![JOURNAL_VERSION] + seq![chain_tag_of(j.chain)] + outcome_bytes(
            j.outcome,
        ) + length_prefixed(j.agent_id) + be_bytes(j.escrow_id as nat, 8) + length_prefixed(
            j.sender,
        ) + length_prefixed(j.recipient) + seq![asset_kind_tag_of(j.asset_kind)]
            + length_prefixed(j.asset_token) + be_bytes(j.amount, 32) + j.condition,
{
    let parts = seq![
        seq![JOURNAL_VERSION],
        seq![chain_tag_of(j.chain)],
        outcome_bytes(j.outcome),
        length_prefixed(j.agent_id),
        be_bytes(j.escrow_id as nat, 8),
        length_prefixed(j.sender),
        length_prefixed(j.recipient),
        seq![asset_kind_tag_of(j.asset_kind)],
        length_prefixed(j.asset_token),
        be_bytes(j.amount, 32),
        j.condition,
    ];
    lemma_left_right(parts, 0);
    assert(journal_bytes(j) == concat_right(parts, 0)) by {
        reveal_with_fuel(concat_right, 12);
    }
    assert(concat_left(parts, 11) == seq![JOURNAL_VERSION] + seq![chain_tag_of(j.chain)]
        + outcome_bytes(j.outcome) + length_prefixed(j.agent_id) + be_bytes(j.escrow_id as nat, 8)
        + length_prefixed(j.sender) + length_prefixed(j.recipient) + seq![
        asset_kind_tag_of(j.asset_kind),
    ] + length_prefixed(j.asset_token) + be_bytes(j.amount, 32) + j.condition) by {
        reveal_with_fuel(concat_left, 12);
    }
}

/// The parts from `k` on, concatenated from the right.
pub open spec fn concat_right(parts: Seq<Seq<u8>>, k: nat) -> Seq<u8>
    decreases parts.len() - k,
{
    if k + 1 >= parts.len() {
        if k < parts.len() {
            parts[k as int]
        } else {
            Seq::empty()
        }
    } else {
        parts[k as int] + concat_right(parts, k + 1)
    }
}

/// The first `k` parts, concatenated from the left.
pub open spec fn concat_left(parts: Seq<Seq<u8>>, k: nat) -> Seq<u8>
    decreases k,
{
    if k == 0 {
        Seq::empty()
    } else if k == 1 {
        parts[0]
    } else {
        concat_left(parts, (k - 1) as nat) + parts[k - 1]
    }
}

/// Concatenation does not depend on grouping.
proof fn lemma_left_right(parts: Seq<Seq<u8>>, k: nat)
    requires
        1 <= k + 1 <= parts.len(),
    ensures
        (if k == 0 { Seq::empty() } else { concat_left(parts, k) }) + concat_right(parts, k)
            == concat_left(parts, parts.len()),
    decreases parts.len() - k,
{
    if k + 1 >= parts.len() {
        if k == 0 {
            assert(Seq::<u8>::empty() + parts[0] =~= parts[0]);
        }
    } else {
        lemma_left_right(parts, k + 1);
        let p = if k == 0 { Seq::<u8>::empty() } else { concat_left(parts, k) };
        vstd::seq_lib::lemma_concat_associative(p, parts[k as int], concat_right(parts, k + 1));
        if k == 0 {
            assert(Seq::<u8>::empty() + parts[0] =~= parts[0]);
        }
    }
}

/// Appends `bytes` to `out`.
pub(crate) fn extend(out: &mut Vec<u8>, bytes: &[u8])
    ensures
        final(out)@ == old(out)@ + bytes@,
{
    let mut i: usize = 0;
    while i < bytes.len()
        invariant
            i <= bytes@.len(),
            out@ =~= old(out)@ + bytes@.subrange(0, i as int),
        decreases bytes@.len() - i,
    {
        out.push(bytes[i]);
        i = i + 1;
    }
    assert(bytes@.subrange(0, i as int) =~= bytes@);
}

/// Appends a `u16` big-endian length prefix followed by `bytes`.
pub fn push_bytes(out: &mut Vec<u8>, bytes: &[u8]) -> (r: Result<(), CommitmentError>)
    ensures
        r is Ok <==> bytes@.len() <= MAX_FIELD_LEN,
        r is Ok ==> final(out)@ == old(out)@ + length_prefixed(bytes@),
        r is Err ==> r == Err::<(), CommitmentError>(CommitmentError::FieldTooLong(bytes@.len() as usize))
            && final(out)@ == old(out)@,
{
    if bytes.len() > MAX_FIELD_LEN {
        return Err(CommitmentError::FieldTooLong(bytes.len()));
    }
    let len = u16_to_be_bytes(bytes.len() as u16);
    extend(out, &len);
    extend(out, bytes);
    assert(out@ =~= old(out)@ + length_prefixed(bytes@));
    Ok(())
}

/// Encodes `amount` as fixed-width 32-byte big-endian (`uint256`).
pub fn amount_be_bytes(amount: &BigNumber) -> (r: Result<[u8; 32], CommitmentError>)
    ensures
        r is Ok <==> amount@ < pow256(32),
        r matches Ok(p) ==> p@ == be_bytes(amount@, 32),
        r is Err ==> r == Err::<[u8; 32], CommitmentError>(CommitmentError::AmountTooLarge),
{
    let be = amount.to_bytes_be();
    proof {
        lemma_min_be_bytes(amount@);
        lemma_min_be_len(amount@, 32);
    }
    if be.len() > AMOUNT_WIDTH {
        return Err(CommitmentError::AmountTooLarge);
    }
    let offset = AMOUNT_WIDTH - be.len();
    let mut padded = [0u8; 32];
    let mut i: usize = 0;
    while i < be.len()
        invariant
            be@ == min_be_bytes(amount@),
            offset + be@.len() == 32,
            i <= be@.len(),
            padded@.len() == 32,
            forall|k: int| 0 <= k < offset ==> padded@[k] == 0,
            forall|k: int| 0 <= k < i ==> padded@[offset + k] == be@[k],
        decreases be@.len() - i,
    {
        padded[offset + i] = be[i];
        i = i + 1;
    }
    proof {
        let n = be@.len();
        lemma_min_be_len(amount@, n);
        lemma_be_bytes_pad(amount@, n, offset as nat);
        assert(padded@ =~= zeros(offset as nat) + be@);
        assert(n + offset as nat == 32);
    }
    Ok(padded)
}

pub fn chain_tag(chain: Chain) -> (t: u8)
    ensures
        t == chain_tag_of(chain),
        chain_of_tag(t) == Some(chain),
{
    match chain {
        Chain::Ethereum => 0,
        Chain::Solana => 1,
    }
}

pub fn chain_from_tag(tag: u8) -> (r: Result<Chain, CommitmentError>)
    ensures
        r matches Ok(c) ==> chain_of_tag(tag) == Some(c) && chain_tag_of(c) == tag,
        r is Err ==> chain_of_tag(tag) is None && r == Err::<Chain, CommitmentError>(
            CommitmentError::UnknownTag { field: TagField::Chain, tag },
        ),
{
    match tag {
        0 => Ok(Chain::Ethereum),
        1 => Ok(Chain::Solana),
        other => Err(CommitmentError::UnknownTag { field: TagField::Chain, tag: other }),
    }
}

pub fn asset_kind_tag(kind: AssetKind) -> (t: u8)
    ensures
        t == asset_kind_tag_of(kind),
        asset_kind_of_tag(t) == Some(kind),
{
    match kind {
        AssetKind::Native => 0,
        AssetKind::Token => 1,
    }
}

pub fn asset_kind_from_tag(tag: u8) -> (r: Result<AssetKind, CommitmentError>)
    ensures
        r matches Ok(k) ==> asset_kind_of_tag(tag) == Some(k) && asset_kind_tag_of(k) == tag,
        r is Err ==> asset_kind_of_tag(tag) is None && r == Err::<AssetKind, CommitmentError>(
            CommitmentError::UnknownTag { field: TagField::AssetKind, tag },
        ),
{
    match tag {
        0 => Ok(AssetKind::Native),
        1 => Ok(AssetKind::Token),
        other => Err(CommitmentError::UnknownTag { field: TagField::AssetKind, tag: other }),
    }
}

pub fn state_tag(state: ExecutionState) -> (t: u8)
    ensures
        t == state_tag_of(state),
        state_of_tag(t) == Some(state),
{
    match state {
        ExecutionState::Initialized => 0,
        ExecutionState::Funded => 1,
        ExecutionState::ConditionsMet => 2,
    }
}

pub fn state_from_tag(tag: u8) -> (r: Result<ExecutionState, CommitmentError>)
    ensures
        r matches Ok(s) ==> state_of_tag(tag) == Some(s) && state_tag_of(s) == tag,
        r is Err ==> state_of_tag(tag) is None && r == Err::<ExecutionState, CommitmentError>(
            CommitmentError::UnknownTag { field: TagField::ExecutionState, tag },
        ),
{
    match tag {
        0 => Ok(ExecutionState::Initialized),
        1 => Ok(ExecutionState::Funded),
        2 => Ok(ExecutionState::ConditionsMet),
        other => Err(CommitmentError::UnknownTag { field: TagField::ExecutionState, tag: other }),
    }
}

impl PublicCommitment {
    /// Builds the commitment from the guest input and the execution outcome:
    /// each binding field as the input gives it, the asset token empty for
    /// the native coin, and the condition commitment all-zero when the escrow
    /// has no condition.
    pub fn new(input: &ProofInput, outcome: ExecutionResult) -> (c: PublicCommitment)
        ensures
            c@ == commitment_of(*input, outcome),
    {
        let asset = &input.escrow.asset;
        let asset_token = match &asset.agent_id {
            Some(t) => vstd::slice::slice_to_vec(t.as_slice()),
            None => Vec::new(),
        };
        let condition = match input.escrow.condition {
            Some(c) => c,
            None => [0u8; 32],
        };
        proof {
            assert(input.escrow.condition is None ==> condition@ =~= Seq::new(32, |i: int| 0u8));
        }
        PublicCommitment {
            chain: input.chain,
            agent_id: vstd::slice::slice_to_vec(input.agent_id.as_slice()),
            escrow_id: input.escrow_id,
            sender: vstd::slice::slice_to_vec(input.escrow.sender.as_slice()),
            recipient: vstd::slice::slice_to_vec(input.escrow.recipient.as_slice()),
            asset_kind: asset.kind,
            asset_token,
            amount: asset.amount.clone(),
            condition,
            outcome,
        }
    }

    /// Serializes the commitment into the journal byte layout.
    ///
    /// Fails with `FieldTooLong` for the first length-prefixed field (agent id,
    /// sender, recipient, asset token) longer than `u16::MAX` bytes, otherwise with
    /// `AmountTooLarge` if the amount exceeds 256 bits.
    pub fn to_journal_bytes(&self) -> (r: Result<Vec<u8>, CommitmentError>)
        ensures
            r matches Ok(v) ==> journal_encoding(self@) == Ok::<Seq<u8>, CommitmentError>(v@),
            r matches Err(e) ==> journal_encoding(self@) == Err::<Seq<u8>, CommitmentError>(e),
    {
        let mut out: Vec<u8> = Vec::new();
        out.push(JOURNAL_VERSION);
        out.push(chain_tag(self.chain));
        match self.outcome {
            ExecutionResult::Success(state) => {
                out.push(1);
                out.push(state_tag(state));
            },
            ExecutionResult::Failure => out.push(0),
        }
        assert(out@ =~= seq![JOURNAL_VERSION] + seq![chain_tag_of(self.chain)] + outcome_bytes(
            self.outcome,
        ));
        push_bytes(&mut out, self.agent_id.as_slice())?;
        let id = u64_to_be_bytes(self.escrow_id);
        extend(&mut out, &id);
        push_bytes(&mut out, self.sender.as_slice())?;
        push_bytes(&mut out, self.recipient.as_slice())?;
        let ghost before_kind = out@;
        out.push(asset_kind_tag(self.asset_kind));
        assert(out@ =~= before_kind + seq![asset_kind_tag_of(self.asset_kind)]);
        push_bytes(&mut out, self.asset_token.as_slice())?;
        let amount = amount_be_bytes(&self.amount)?;
        extend(&mut out, &amount);
        extend(&mut out, &self.condition);
        proof {
            lemma_journal_layout(self@);
        }
        Ok(out)
    }

    /// `sha256` of the journal bytes: the digest an on-chain verifier checks the
    /// receipt seal against. Fails as [`Self::to_journal_bytes`] does.
    pub fn digest(&self) -> (r: Result<[u8; 32], CommitmentError>)
        ensures
            r matches Ok(h) ==> journal_encoding(self@) is Ok && h@ == sha256(
                journal_encoding(self@)->Ok_0,
            ),
            r matches Err(e) ==> journal_encoding(self@) == Err::<Seq<u8>, CommitmentError>(e),
    {
        let journal = self.to_journal_bytes()?;
        Ok(sha256_digest(journal.as_slice()))
    }

    /// Parses a commitment back from journal bytes.
    ///
    /// Fails if `bytes` is truncated, carries an unknown version, contains an
    /// unrecognized enum tag, or has bytes after the last field.
    pub fn from_journal_bytes(bytes: &[u8]) -> (r: Result<PublicCommitment, CommitmentError>)
        ensures
            r matches Ok(c) ==> parse_journal(bytes@) == Ok::<JournalView, CommitmentError>(c@),
            r matches Err(e) ==> parse_journal(bytes@) == Err::<JournalView, CommitmentError>(e),
    {
        let mut reader = Reader::new(bytes);
        let version = reader.u8()?;
        if version != JOURNAL_VERSION {
            return Err(CommitmentError::UnknownVersion(version));
        }
        let chain = chain_from_tag(reader.u8()?)?;
        let tag = reader.u8()?;
        let outcome = if tag == 0 {
            ExecutionResult::Failure
        } else if tag == 1 {
            ExecutionResult::Success(state_from_tag(reader.u8()?)?)
        } else {
            return Err(CommitmentError::UnknownTag { field: TagField::Outcome, tag });
        };
        let agent_id = reader.length_prefixed()?;
        let escrow_id = reader.u64()?;
        let sender = reader.length_prefixed()?;
        let recipient = reader.length_prefixed()?;
        let asset_kind = asset_kind_from_tag(reader.u8()?)?;
        let asset_token = reader.length_prefixed()?;
        let amount = BigNumber::from_bytes_be(reader.take(AMOUNT_WIDTH)?);
        let condition = reader.array32()?;
        reader.finish()?;
        Ok(
            PublicCommitment {
                chain,
                agent_id: vstd::slice::slice_to_vec(agent_id),
                escrow_id,
                sender: vstd::slice::slice_to_vec(sender),
                recipient: vstd::slice::slice_to_vec(recipient),
                asset_kind,
                asset_token: vstd::slice::slice_to_vec(asset_token),
                amount,
                condition,
                outcome,
            },
        )
    }
}

/// Bounds-checked forward cursor over the journal bytes.
pub struct Reader<'a> {
    bytes: &'a [u8],
    offset: usize,
}

impl<'a> Reader<'a> {
    /// The bytes read from.
    pub closed spec fn data(&self) -> Seq<u8> {
        self.bytes@
    }

    /// The position of the next read.
    pub closed spec fn pos(&self) -> int {
        self.offset as int
    }

    pub open spec fn wf(&self) -> bool {
        0 <= self.pos() <= self.data().len()
    }

    /// A reader at the start of `bytes`.
    pub fn new(bytes: &'a [u8]) -> (r: Reader<'a>)
        ensures
            r.data() == bytes@,
            r.pos() == 0,
            r.wf(),
    {
        Reader { bytes, offset: 0 }
    }

    /// Reads `len` bytes; on failure nothing is consumed.
    pub fn take(&mut self, len: usize) -> (r: Result<&'a [u8], CommitmentError>)
        requires
            old(self).wf(),
        ensures
            final(self).wf(),
            final(self).data() == old(self).data(),
            match read_bytes(old(self).data(), old(self).pos(), len as int) {
                Ok((x, o)) => r matches Ok(s) && s@ == x && final(self).pos() == o,
                Err(e) => r == Err::<&'a [u8], CommitmentError>(e),
            },
    {
        if len > self.bytes.len() - self.offset {
            return Err(CommitmentError::Truncated(self.offset));
        }
        let end = self.offset + len;
        let slice = vstd::slice::slice_subrange(self.bytes, self.offset, end);
        self.offset = end;
        Ok(slice)
    }

    /// Reads one byte.
    pub fn u8(&mut self) -> (r: Result<u8, CommitmentError>)
        requires
            old(self).wf(),
        ensures
            final(self).wf(),
            final(self).data() == old(self).data(),
            match read_bytes(old(self).data(), old(self).pos(), 1) {
                Ok((x, o)) => r == Ok::<u8, CommitmentError>(x[0]) && final(self).pos() == o,
                Err(e) => r == Err::<u8, CommitmentError>(e),
            },
    {
        let s = self.take(1)?;
        Ok(s[0])
    }

    /// Reads a big-endian `u64`.
    pub fn u64(&mut self) -> (r: Result<u64, CommitmentError>)
        requires
            old(self).wf(),
        ensures
            final(self).wf(),
            final(self).data() == old(self).data(),
            match read_bytes(old(self).data(), old(self).pos(), 8) {
                Ok((x, o)) => r == Ok::<u64, CommitmentError>(be_value(x) as u64)
                    && final(self).pos() == o,
                Err(e) => r == Err::<u64, CommitmentError>(e),
            },
    {
        let s = self.take(8)?;
        Ok(be_to_u64(s))
    }

    /// Reads 32 bytes into an array.
    pub fn array32(&mut self) -> (r: Result<[u8; 32], CommitmentError>)
        requires
            old(self).wf(),
        ensures
            final(self).wf(),
            final(self).data() == old(self).data(),
            match read_bytes(old(self).data(), old(self).pos(), 32) {
                Ok((x, o)) => r matches Ok(a) && a@ == x && final(self).pos() == o,
                Err(e) => r == Err::<[u8; 32], CommitmentError>(e),
            },
    {
        let s = self.take(32)?;
        let mut out = [0u8; 32];
        let mut i: usize = 0;
        while i < 32
            invariant
                s@.len() == 32,
                i <= 32,
                out@.len() == 32,
                forall|k: int| 0 <= k < i ==> out@[k] == s@[k],
            decreases 32 - i,
        {
            out[i] = s[i];
            i = i + 1;
        }
        assert(out@ =~= s@);
        Ok(out)
    }

    /// Reads a `u16`-length-prefixed field.
    pub fn length_prefixed(&mut self) -> (r: Result<&'a [u8], CommitmentError>)
        requires
            old(self).wf(),
        ensures
            final(self).wf(),
            final(self).data() == old(self).data(),
            match read_prefixed(old(self).data(), old(self).pos()) {
                Ok((x, o)) => r matches Ok(s) && s@ == x && final(self).pos() == o,
                Err(e) => r == Err::<&'a [u8], CommitmentError>(e),
            },
    {
        let l = self.take(2)?;
        let len = be_to_u64(l);
        proof {
            lemma_be_value_bound(l@);
            lemma_pow256_values();
        }
        self.take(len as usize)
    }

    /// Succeeds only when every byte has been read.
    pub fn finish(self) -> (r: Result<(), CommitmentError>)
        requires
            self.wf(),
        ensures
            r is Ok <==> self.pos() == self.data().len(),
            r is Err ==> r == Err::<(), CommitmentError>(
                CommitmentError::TrailingBytes(self.pos() as usize),
            ),
    {
        if self.offset == self.bytes.len() {
            Ok(())
        } else {
            Err(CommitmentError::TrailingBytes(self.offset))
        }
    }
}

} // verus!
