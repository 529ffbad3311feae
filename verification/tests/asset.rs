use zescrow::asset::{Asset, AssetKind};
use zescrow::bignum::BigNumber;
use zescrow::error::{AssetError, EscrowError, IdentityError};

fn to_bignum(num: u64) -> BigNumber {
    BigNumber::from_u64(num)
}

#[test]
fn native() {
    let coin = Asset::native(to_bignum(1));
    assert!(coin.validate().is_ok());

    let zero_coin = Asset::native(to_bignum(0));
    assert!(zero_coin.validate().is_err());
}

#[test]
fn token() {
    // amount = 1000, decimals = 9
    let token = Asset::token(vec![4, 5, 6], to_bignum(1000), 9);
    assert!(token.validate().is_ok());

    // empty program ID
    let empty_agent_id = Asset::token(Vec::new(), to_bignum(100), 9);
    assert!(empty_agent_id.validate().is_err());

    // zero amount
    let zero_token = Asset::token(vec![1, 2, 3], to_bignum(0), 6);
    assert!(zero_token.validate().is_err());
}

#[test]
fn validation_errors_are_specific() {
    assert_eq!(
        Asset::native(to_bignum(0)).validate(),
        Err(EscrowError::Asset(AssetError::ZeroAmount))
    );
    assert_eq!(
        Asset::token(Vec::new(), to_bignum(1), 0).validate(),
        Err(EscrowError::Identity(IdentityError::EmptyIdentity))
    );
    let missing = Asset {
        kind: AssetKind::Token,
        agent_id: None,
        amount: to_bignum(5),
        decimals: Some(2),
    };
    assert_eq!(missing.validate(), Err(EscrowError::Asset(AssetError::MissingId)));
}

#[test]
fn format_amount_with_decimals() {
    let asset = Asset::token(vec![1], to_bignum(1_500_000_000), 9);
    assert_eq!(asset.format_amount(), "1.500000000");
}

#[test]
fn format_amount_without_decimals() {
    let asset = Asset::native(to_bignum(12345));
    assert_eq!(asset.format_amount(), "12345");
}

#[test]
fn format_amount_pads_fraction() {
    let asset = Asset::token(vec![1], to_bignum(5), 3);
    assert_eq!(asset.format_amount(), "0.005");
    let asset = Asset::token(vec![1], to_bignum(0), 2);
    assert_eq!(asset.format_amount(), "0.00");
}

#[test]
fn format_amount_wide_value() {
    let asset = Asset::native(BigNumber::from_u128(u128::MAX));
    assert_eq!(asset.format_amount(), u128::MAX.to_string());
    let asset = Asset::token(vec![1], BigNumber::from_u128(u128::MAX), 18);
    assert_eq!(asset.format_amount(), "340282366920938463463.374607431768211455");
}

#[test]
fn bignum_bytes_are_shortest_big_endian() {
    assert_eq!(BigNumber::zero().to_bytes_be(), vec![0]);
    assert_eq!(BigNumber::from_u64(258).to_bytes_be(), vec![1, 2]);
    assert_eq!(BigNumber::from_bytes_be(&[0, 0, 1, 2]), BigNumber::from_u64(258));
    assert_eq!(BigNumber::from_bytes_be(&[0, 0]), BigNumber::zero());
    assert!(BigNumber::from_bytes_be(&[]).is_zero());
    assert_eq!(
        BigNumber::from_u128(1u128 << 64).to_bytes_be(),
        vec![1, 0, 0, 0, 0, 0, 0, 0, 0]
    );
}
