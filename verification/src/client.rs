//! Client-side values: release proofs, recipient credentials, the client
//! builder, and the Ethereum agent's argument conversions.
use crate::be::{
    be_bytes, be_to_u64, be_value, lemma_be_value_bound, lemma_be_value_zero, lemma_pow256_values, pow256,
};
use crate::bignum::BigNumber;
use crate::commitment::amount_be_bytes;
use crate::interface::{ChainConfig, EscrowMetadata, EscrowParams, ExecutionState};
use crate::outside::{hex_decode, hex_decoded};
use vstd::prelude::*;
use vstd::string::{StrSliceExecFns, StringExecFns};

verus! {

/// A verifying release proof for a conditioned escrow, carried from the prover
/// to the on-chain settlement call.
#[derive(Debug, Clone, Default)]
pub struct ReleaseProof {
    /// Selector-prefixed receipt seal.
    pub seal: Vec<u8>,
    /// Journal bytes the guest committed.
    pub journal: Vec<u8>,
}

/// A recipient signing credential, kept as the raw input and interpreted
/// against the target chain when the client is built: a hex-encoded private
/// key on Ethereum, a path to a keypair file on Solana.
#[derive(Debug, Clone)]
pub struct Recipient(pub String);

impl Recipient {
    /// Captures the raw recipient input.
    pub fn new(s: &str) -> (r: Recipient)
        ensures
            r.0@ == s@,
    {
        Recipient(s.to_owned())
    }
}

impl std::str::FromStr for Recipient {
    type Err = std::convert::Infallible;

    /// Captures the raw recipient input; its meaning is resolved against the
    /// chain when the client is built.
    fn from_str(s: &str) -> (r: Result<Self, Self::Err>)
        ensures
            r matches Ok(rec) && rec.0@ == s@,
    {
        Ok(Recipient::new(s))
    }
}

/// Builder for a client: the chain configuration and, for finish operations,
/// the recipient's credential.
#[derive(Debug, Clone)]
pub struct ZescrowClientBuilder {
    /// The chain configuration.
    pub config: ChainConfig,
    /// The recipient credential, if set.
    pub recipient: Option<Recipient>,
}

impl ZescrowClientBuilder {
    /// A builder for `config`, with no recipient set.
    pub fn new(config: ChainConfig) -> (b: ZescrowClientBuilder)
        ensures
            b.config == config,
            b.recipient is None,
    {
        ZescrowClientBuilder { config, recipient: None }
    }

    /// Sets the recipient key for finish operations.
    pub fn recipient(self, recipient: Recipient) -> (b: ZescrowClientBuilder)
        ensures
            b.config == self.config,
            b.recipient == Some(recipient),
    {
        ZescrowClientBuilder { config: self.config, recipient: Some(recipient) }
    }
}

/// Errors of the chain agents.
#[derive(Debug, Clone, PartialEq, Eq)]
pub enum ClientError {
    /// An Ethereum operation failed.
    Ethereum {
        /// The operation.
        operation: String,
        /// What went wrong.
        message: String,
    },
    /// The amount is not representable on-chain.
    AssetOverflow,
    /// An expected on-chain event was not found.
    MissingEvent(String),
}

impl ClientError {
    /// An Ethereum error for `operation`.
    pub fn ethereum(operation: &str, message: &str) -> (e: ClientError)
        ensures
            e matches ClientError::Ethereum { operation: o, message: m } && o@ == operation@
                && m@ == message@,
    {
        ClientError::Ethereum { operation: operation.to_owned(), message: message.to_owned() }
    }

    /// The error's message.
    pub fn to_string(&self) -> (s: String)
        ensures
            s@ == self.message_spec(),
    {
        proof {
            reveal_strlit("ethereum ");
            reveal_strlit(" failed: ");
            reveal_strlit("asset amount is not representable on-chain");
            reveal_strlit("missing event: ");
        }
        match self {
            ClientError::Ethereum { operation, message } => {
                let mut s = String::from_str("ethereum ");
                s.append(operation.as_str());
                s.append(" failed: ");
                s.append(message.as_str());
                s
            },
            ClientError::AssetOverflow => String::from_str("asset amount is not representable on-chain"),
            ClientError::MissingEvent(what) => {
                let mut s = String::from_str("missing event: ");
                s.append(what.as_str());
                s
            },
        }
    }

    /// The error's message.
    pub open spec fn message_spec(&self) -> Seq<char> {
        match self {
            ClientError::Ethereum { operation, message } => "ethereum "@ + operation@ + " failed: "@
                + message@,
            ClientError::AssetOverflow => "asset amount is not representable on-chain"@,
            ClientError::MissingEvent(what) => "missing event: "@ + what@,
        }
    }
}

/// `s` without a leading `0x` or `0X`.
pub open spec fn without_hex_prefix(s: Seq<char>) -> Seq<char> {
    if s.len() >= 2 && s[0] == '0' && (s[1] == 'x' || s[1] == 'X') {
        s.skip(2)
    } else {
        s
    }
}

/// Parses a 20-byte EVM address from hex, tolerating a `0x`/`0X` prefix and
/// either case.
pub fn parse_address(s: &str) -> (r: Result<[u8; 20], ClientError>)
    ensures
        r matches Ok(a) ==> hex_decoded(without_hex_prefix(s@)) == Some(a@),
        r is Ok <==> (hex_decoded(without_hex_prefix(s@)) is Some && hex_decoded(
            without_hex_prefix(s@),
        )->0.len() == 20),
        r matches Err(e) ==> e is Ethereum,
{
    let n = s.unicode_len();
    let hex_str = if n >= 2 && s.get_char(0) == '0' && (s.get_char(1) == 'x' || s.get_char(1) == 'X') {
        s.substring_char(2, n)
    } else {
        s
    };
    assert(hex_str@ == without_hex_prefix(s@));
    let bytes = match hex_decode(hex_str) {
        Ok(b) => b,
        Err(message) => return Err(ClientError::ethereum("parse_address", message.as_str())),
    };
    if bytes.len() != 20 {
        return Err(ClientError::ethereum("parse_address", "expected a 20-byte address"));
    }
    let mut out = [0u8; 20];
    let mut i: usize = 0;
    while i < 20
        invariant
            bytes@.len() == 20,
            i <= 20,
            out@.len() == 20,
            forall|k: int| 0 <= k < i ==> out@[k] == bytes@[k],
        decreases 20 - i,
    {
        out[i] = bytes[i];
        i = i + 1;
    }
    assert(out@ =~= bytes@);
    Ok(out)
}

/// The escrow amount as an EVM `uint256` (32 bytes, big-endian); fails with
/// `AssetOverflow` when it does not fit.
pub fn evm_amount(amount: &BigNumber) -> (r: Result<[u8; 32], ClientError>)
    ensures
        r is Ok <==> amount@ < pow256(32),
        r matches Ok(w) ==> w@ == be_bytes(amount@, 32),
        r is Err ==> r == Err::<[u8; 32], ClientError>(ClientError::AssetOverflow),
{
    match amount_be_bytes(amount) {
        Ok(w) => Ok(w),
        Err(_) => Err(ClientError::AssetOverflow),
    }
}

/// The id of a new escrow, from the `EscrowCreated` event's `uint256` id
/// (32 bytes, big-endian) when the event was found; it must fit in a `u64`.
pub fn created_id(event_id: Option<[u8; 32]>) -> (r: Result<u64, ClientError>)
    ensures
        event_id is None ==> (r matches Err(ClientError::MissingEvent(m)) && m@
            == "EscrowCreated event not found"@),
        event_id matches Some(w) ==> (r is Ok <==> be_value(w@) <= u64::MAX),
        event_id matches Some(w) ==> (r matches Ok(id) ==> id == be_value(w@)),
        event_id matches Some(w) ==> (r matches Err(e) ==> (e matches ClientError::MissingEvent(m)
            && m@ == "escrow_id exceeds u64"@)),
{
    proof {
        reveal_strlit("EscrowCreated event not found");
        reveal_strlit("escrow_id exceeds u64");
    }
    let w = match event_id {
        Some(w) => w,
        None => return Err(ClientError::MissingEvent(String::from_str("EscrowCreated event not found"))),
    };
    let mut i: usize = 0;
    while i < 24
        invariant
            i <= 24,
            event_id == Some(w),
            w@.len() == 32,
            forall|k: int| 0 <= k < i ==> w@[k] == 0,
        decreases 24 - i,
    {
        if w[i] != 0 {
            proof {
                lemma_be_value_split(w@);
                lemma_be_value_zero(w@.subrange(0, 24));
                lemma_be_value_bound(w@.subrange(24, 32));
                lemma_pow256_values();
                assert(w@.subrange(0, 24)[i as int] != 0);
                assert(be_value(w@.subrange(0, 24)) >= 1);
                assert(be_value(w@) >= pow256(8)) by (nonlinear_arith)
                    requires
                        be_value(w@) == be_value(w@.subrange(0, 24)) * pow256(8) + be_value(
                            w@.subrange(24, 32),
                        ),
                        be_value(w@.subrange(0, 24)) >= 1,
                ;
            }
            return Err(ClientError::MissingEvent(String::from_str("escrow_id exceeds u64")));
        }
        i = i + 1;
    }
    let low = vstd::slice::slice_subrange(w.as_slice(), 24, 32);
    let id = be_to_u64(low);
    proof {
        lemma_be_value_split(w@);
        lemma_be_value_zero(w@.subrange(0, 24));
    }
    Ok(id)
}

/// The value of 32 bytes: the high 24 and the low 8.
proof fn lemma_be_value_split(w: Seq<u8>)
    requires
        w.len() == 32,
    ensures
        be_value(w) == be_value(w.subrange(0, 24)) * pow256(8) + be_value(w.subrange(24, 32)),
{
    assert(w =~= w.subrange(0, 24) + w.subrange(24, 32));
    crate::bignum::lemma_be_value_concat(w.subrange(0, 24), w.subrange(24, 32));
}

/// The escrow id recorded at creation, required to address the escrow.
pub fn escrow_id(recorded: Option<u64>, operation: &str) -> (r: Result<u64, ClientError>)
    ensures
        recorded matches Some(id) ==> r == Ok::<u64, ClientError>(id),
        recorded is None ==> (r matches Err(ClientError::Ethereum { operation: o, .. }) && o@
            == operation@),
{
    match recorded {
        Some(id) => Ok(id),
        None => Err(ClientError::ethereum(operation, "missing escrow_id")),
    }
}

/// The arguments of the EVM contract's `createEscrow` call: the recipient's
/// address, the two time locks and the condition id as `uint256`/`bytes32`
/// words (big-endian), and the value sent.
#[derive(Debug, Clone, Copy, PartialEq, Eq)]
pub struct EvmCreateArgs {
    pub recipient: [u8; 20],
    pub finish_after: [u8; 32],
    pub cancel_after: [u8; 32],
    pub condition_id: [u8; 32],
    pub amount: [u8; 32],
}

/// A `u64` as a `uint256` word.
fn u64_word(v: u64) -> (w: [u8; 32])
    ensures
        w@ == be_bytes(v as nat, 32),
{
    let n = BigNumber::from_u64(v);
    proof {
        lemma_pow256_values();
        crate::be::lemma_pow256_monotone(8, 32);
    }
    match amount_be_bytes(&n) {
        Ok(w) => w,
        Err(_) => [0u8; 32],
    }
}

/// The `createEscrow` arguments for `params` and the condition commitment
/// (`None` for an unconditioned escrow): the recipient parsed as an address,
/// an unset time lock as zero, an absent condition as the zero id, and the
/// amount as a `uint256`. The recipient is parsed first, then the amount.
pub fn evm_create_args(params: &EscrowParams, condition: Option<[u8; 32]>) -> (r: Result<
    EvmCreateArgs,
    ClientError,
>)
    ensures
        ({
            let addr = hex_decoded(without_hex_prefix(params.recipient@));
            if !(addr is Some && addr->0.len() == 20) {
                r matches Err(e) && e is Ethereum
            } else if params.asset.amount@ >= pow256(32) {
                r == Err::<EvmCreateArgs, ClientError>(ClientError::AssetOverflow)
            } else {
                r matches Ok(a) && a.recipient@ == addr->0 && a.finish_after@ == be_bytes(
                    match params.finish_after {
                        Some(f) => f as nat,
                        None => 0nat,
                    },
                    32,
                ) && a.cancel_after@ == be_bytes(
                    match params.cancel_after {
                        Some(c) => c as nat,
                        None => 0nat,
                    },
                    32,
                ) && a.condition_id@ == match condition {
                    Some(c) => c@,
                    None => Seq::new(32, |i: int| 0u8),
                } && a.amount@ == be_bytes(params.asset.amount@, 32)
            }
        }),
{
    let recipient = parse_address(params.recipient.as_str())?;
    let finish_after = u64_word(
        match params.finish_after {
            Some(f) => f,
            None => 0,
        },
    );
    let cancel_after = u64_word(
        match params.cancel_after {
            Some(c) => c,
            None => 0,
        },
    );
    let amount = evm_amount(&params.asset.amount)?;
    let condition_id = match condition {
        Some(c) => c,
        None => [0u8; 32],
    };
    proof {
        assert(condition is None ==> condition_id@ =~= Seq::new(32, |i: int| 0u8));
    }
    Ok(EvmCreateArgs { recipient, finish_after, cancel_after, condition_id, amount })
}

/// The metadata recorded once `createEscrow` is confirmed: the parameters,
/// the `Funded` state, and the id from the `EscrowCreated` event.
pub fn funded_metadata(params: EscrowParams, escrow_id: u64) -> (m: EscrowMetadata)
    ensures
        m.params == params,
        m.state == ExecutionState::Funded,
        m.escrow_id == Some(escrow_id),
{
    EscrowMetadata { params, state: ExecutionState::Funded, escrow_id: Some(escrow_id) }
}

} // verus!
