use std::str::FromStr;

use zescrow::condition::threshold::Error as ThresholdError;
use zescrow::error::{AssetError, ConditionError, EscrowError, IdentityError};
use zescrow::interface::Chain;

#[test]
fn escrow_error_messages() {
    assert_eq!(EscrowError::UnsupportedChain.to_str(), "unsupported chain specified");
    assert_eq!(EscrowError::InvalidState.to_str(), "invalid state transition");
    assert_eq!(
        EscrowError::Asset(AssetError::ZeroAmount).to_str(),
        "asset error: amount must be non-zero"
    );
    assert_eq!(
        EscrowError::Identity(IdentityError::InputTooLong { len: 300, max: 256 }).to_str(),
        "identity error: input length 300 exceeds maximum of 256 characters"
    );
    assert_eq!(
        EscrowError::Condition(ConditionError::Threshold(ThresholdError::ThresholdNotMet {
            required: 2,
            satisfied: 1
        }))
        .to_str(),
        "condition error: threshold check failed: needed at least 2 passes, but only 1 succeeded"
    );
    assert_eq!(
        EscrowError::InvalidChainOp("pda on ethereum".to_string()).to_str(),
        "invalid chain operation: pda on ethereum"
    );
}

#[test]
fn chain_names_parse_back() {
    for chain in [Chain::Ethereum, Chain::Solana] {
        assert_eq!(Chain::from_str(chain.as_ref()).unwrap(), chain);
    }
}

#[test]
fn identity_decoding_error_messages() {
    assert_eq!(
        EscrowError::Identity(IdentityError::Hex("Odd number of digits".to_string())).to_str(),
        "identity error: hex decoding error: Odd number of digits"
    );
    assert_eq!(
        IdentityError::Base58("bad".to_string()).message(),
        "Base58 decoding error: bad"
    );
    assert_eq!(
        IdentityError::Base64("bad".to_string()).message(),
        "Base64 decoding error: bad"
    );
    assert_eq!(IdentityError::UnsupportedFormat.message(), "unsupported identity format");
}
