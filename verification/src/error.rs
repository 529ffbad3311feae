//! Error types.
use crate::condition::{ed25519, hashlock, secp256k1, threshold};
use crate::bignum::decimal;
use crate::outside::usize_to_string;
use vstd::prelude::*;
use vstd::string::StringExecFns;

verus! {

/// A journal field carrying an enum tag.
#[derive(Debug, Clone, Copy, PartialEq, Eq, Structural)]
pub enum TagField {
    /// The pass/fail outcome.
    Outcome,
    /// The settlement chain.
    Chain,
    /// The asset kind.
    AssetKind,
    /// The execution state of a successful outcome.
    ExecutionState,
}

impl TagField {
    /// The field's name as it appears in error messages.
    pub fn as_str(&self) -> (s: &'static str)
        ensures
            s@ == self.name(),
    {
        proof {
            reveal_strlit("outcome");
            reveal_strlit("chain");
            reveal_strlit("asset_kind");
            reveal_strlit("execution_state");
        }
        match self {
            TagField::Outcome => "outcome",
            TagField::Chain => "chain",
            TagField::AssetKind => "asset_kind",
            TagField::ExecutionState => "execution_state",
        }
    }

    /// The field's name.
    pub open spec fn name(self) -> Seq<char> {
        match self {
            TagField::Outcome => seq!['o', 'u', 't', 'c', 'o', 'm', 'e'],
            TagField::Chain => seq!['c', 'h', 'a', 'i', 'n'],
            TagField::AssetKind => seq!['a', 's', 's', 'e', 't', '_', 'k', 'i', 'n', 'd'],
            TagField::ExecutionState => seq![
                'e', 'x', 'e', 'c', 'u', 't', 'i', 'o', 'n', '_', 's', 't', 'a', 't', 'e',
            ],
        }
    }
}

/// Errors encoding or decoding the public commitment journal.
#[derive(Debug, Clone, Copy, PartialEq, Eq, Structural)]
pub enum CommitmentError {
    /// The journal starts with a version this decoder does not know.
    UnknownVersion(u8),
    /// An enum field carries an unrecognized tag.
    UnknownTag {
        /// The field being decoded.
        field: TagField,
        /// The tag found.
        tag: u8,
    },
    /// The amount does not fit in 256 bits.
    AmountTooLarge,
    /// A length-prefixed field is longer than `u16::MAX` bytes (its length).
    FieldTooLong(usize),
    /// The journal ends early; the offset of the read that failed.
    Truncated(usize),
    /// Bytes remain after the last field; the offset where they start.
    TrailingBytes(usize),
}

/// Errors related to cryptographic condition verification.
#[derive(Debug, Clone, Copy, PartialEq, Eq, Structural)]
pub enum ConditionError {
    /// Hashlock error.
    Hashlock(hashlock::Error),
    /// Ed25519 error.
    Ed25519(ed25519::Error),
    /// Secp256k1 error.
    Secp256k1(secp256k1::Error),
    /// Threshold error.
    Threshold(threshold::Error),
}

/// Errors arising from escrow operations and parameter validation.
#[derive(Debug, Clone, PartialEq, Eq)]
#[non_exhaustive]
pub enum EscrowError {
    /// A cryptographic condition failed to verify.
    Condition(ConditionError),
    /// Attempted to transition an escrow in an invalid state.
    InvalidState,
    /// An identity could not be parsed or validated.
    Identity(IdentityError),
    /// An asset failed parsing, validation, or formatting.
    Asset(AssetError),
    /// Attempted a chain-specific operation on the wrong network.
    InvalidChainOp(String),
    /// The specified blockchain network is not supported.
    UnsupportedChain,
}

/// Errors related to identity validation.
#[derive(Debug, Clone, PartialEq, Eq)]
#[non_exhaustive]
pub enum IdentityError {
    /// The identity was empty.
    EmptyIdentity,
    /// The identity exceeds the maximum allowed length.
    InputTooLong {
        /// Input length.
        len: usize,
        /// Max allowed.
        max: usize,
    },
    /// A hex-encoded identity did not decode; the decoder's message.
    Hex(String),
    /// A Base58-encoded identity did not decode; the decoder's message.
    Base58(String),
    /// A Base64-encoded identity did not decode; the decoder's message.
    Base64(String),
    /// The input did not match any supported identity format.
    UnsupportedFormat,
}

/// Errors related to asset parsing, validation, or formatting.
#[derive(Debug, Clone, PartialEq, Eq)]
#[non_exhaustive]
pub enum AssetError {
    /// Failed to serialize an asset to bytes or JSON.
    Serialization(String),
    /// Failed to parse an asset from bytes or JSON.
    Parsing(String),
    /// A token or native amount was zero, which is not allowed.
    ZeroAmount,
    /// The contract address or mint for a fungible token was not provided.
    MissingId,
}

impl ConditionError {
    /// The error's message.
    pub open spec fn message_spec(self) -> Seq<char> {
        match self {
            ConditionError::Hashlock(e) => "preimage (hashlock) failed: "@ + e.message_spec(),
            ConditionError::Ed25519(e) => "ed25519 signature failed: "@ + e.message_spec(),
            ConditionError::Secp256k1(e) => "secp256k1 signature failed: "@ + e.message_spec(),
            ConditionError::Threshold(e) => "threshold check failed: "@ + e.message_spec(),
        }
    }

    /// The error's message.
    pub fn message(&self) -> (s: String)
        ensures
            s@ == self.message_spec(),
    {
        let (mut s, inner) = match self {
            ConditionError::Hashlock(e) => (String::from_str("preimage (hashlock) failed: "), e.message()),
            ConditionError::Ed25519(e) => (String::from_str("ed25519 signature failed: "), e.message()),
            ConditionError::Secp256k1(e) => (String::from_str("secp256k1 signature failed: "), e.message()),
            ConditionError::Threshold(e) => (String::from_str("threshold check failed: "), e.message()),
        };
        s.append(inner.as_str());
        s
    }
}

impl IdentityError {
    /// The error's message.
    pub open spec fn message_spec(self) -> Seq<char> {
        match self {
            IdentityError::EmptyIdentity => "empty identity string"@,
            IdentityError::InputTooLong { len, max } => "input length "@ + decimal(len as nat)
                + " exceeds maximum of "@ + decimal(max as nat) + " characters"@,
            IdentityError::Hex(m) => "hex decoding error: "@ + m@,
            IdentityError::Base58(m) => "Base58 decoding error: "@ + m@,
            IdentityError::Base64(m) => "Base64 decoding error: "@ + m@,
            IdentityError::UnsupportedFormat => "unsupported identity format"@,
        }
    }

    /// The error's message.
    pub fn message(&self) -> (s: String)
        ensures
            s@ == self.message_spec(),
    {
        match self {
            IdentityError::EmptyIdentity => String::from_str("empty identity string"),
            IdentityError::InputTooLong { len, max } => {
                let mut s = String::from_str("input length ");
                s.append(usize_to_string(*len).as_str());
                s.append(" exceeds maximum of ");
                s.append(usize_to_string(*max).as_str());
                s.append(" characters");
                s
            },
            IdentityError::Hex(m) => {
                let mut s = String::from_str("hex decoding error: ");
                s.append(m.as_str());
                s
            },
            IdentityError::Base58(m) => {
                let mut s = String::from_str("Base58 decoding error: ");
                s.append(m.as_str());
                s
            },
            IdentityError::Base64(m) => {
                let mut s = String::from_str("Base64 decoding error: ");
                s.append(m.as_str());
                s
            },
            IdentityError::UnsupportedFormat => String::from_str("unsupported identity format"),
        }
    }
}

impl AssetError {
    /// The error's message.
    pub open spec fn message_spec(self) -> Seq<char> {
        match self {
            AssetError::Serialization(m) => "could not serialize asset: "@ + m@,
            AssetError::Parsing(m) => "could not parse asset: "@ + m@,
            AssetError::ZeroAmount => "amount must be non-zero"@,
            AssetError::MissingId => "missing ID for asset, program, or contract"@,
        }
    }

    /// The error's message.
    pub fn message(&self) -> (s: String)
        ensures
            s@ == self.message_spec(),
    {
        match self {
            AssetError::Serialization(m) => {
                let mut s = String::from_str("could not serialize asset: ");
                s.append(m.as_str());
                s
            },
            AssetError::Parsing(m) => {
                let mut s = String::from_str("could not parse asset: ");
                s.append(m.as_str());
                s
            },
            AssetError::ZeroAmount => String::from_str("amount must be non-zero"),
            AssetError::MissingId => String::from_str("missing ID for asset, program, or contract"),
        }
    }
}

impl EscrowError {
    /// The error's message.
    pub open spec fn message_spec(self) -> Seq<char> {
        match self {
            EscrowError::Condition(e) => "condition error: "@ + e.message_spec(),
            EscrowError::InvalidState => "invalid state transition"@,
            EscrowError::Identity(e) => "identity error: "@ + e.message_spec(),
            EscrowError::Asset(e) => "asset error: "@ + e.message_spec(),
            EscrowError::InvalidChainOp(m) => "invalid chain operation: "@ + m@,
            EscrowError::UnsupportedChain => "unsupported chain specified"@,
        }
    }

    /// The error's message (what its `Display` would print).
    pub fn to_str(&self) -> (s: String)
        ensures
            s@ == self.message_spec(),
    {
        match self {
            EscrowError::Condition(e) => {
                let mut s = String::from_str("condition error: ");
                s.append(e.message().as_str());
                s
            },
            EscrowError::InvalidState => String::from_str("invalid state transition"),
            EscrowError::Identity(e) => {
                let mut s = String::from_str("identity error: ");
                s.append(e.message().as_str());
                s
            },
            EscrowError::Asset(e) => {
                let mut s = String::from_str("asset error: ");
                s.append(e.message().as_str());
                s
            },
            EscrowError::InvalidChainOp(m) => {
                let mut s = String::from_str("invalid chain operation: ");
                s.append(m.as_str());
                s
            },
            EscrowError::UnsupportedChain => String::from_str("unsupported chain specified"),
        }
    }
}

} // verus!
