//! The calls this library makes into other crates, each with the contract the
//! library relies on. Nothing here is proved: each contract restates what the
//! called crate documents.
use crate::be::{be_value, min_be_bytes};
use crate::bignum::decimal;
use ed25519_dalek::{Signer as _, Verifier as _};
use k256::ecdsa::signature::{Signer as _, Verifier as _};
use num_integer::Integer as _;
use sha2::Digest as _;
use vstd::arithmetic::power::pow;
use vstd::prelude::*;

verus! {

/// The SHA-256 digest (FIPS 180-4) of `data`.
pub uninterp spec fn sha256(data: Seq<u8>) -> Seq<u8>;

/// Whether `signature` is a valid Ed25519 signature (RFC 8032) of `message`
/// under the encoded public key `public_key`, as `ed25519_dalek` checks it.
pub uninterp spec fn ed25519_accepts(public_key: Seq<u8>, message: Seq<u8>, signature: Seq<u8>) -> bool;

/// Whether the DER-encoded `signature` is a valid ECDSA/secp256k1 signature of
/// `message` (hashed with SHA-256) under the SEC1-encoded `public_key`, as
/// `k256` checks it.
pub uninterp spec fn secp256k1_accepts(
    public_key: Seq<u8>,
    message: Seq<u8>,
    signature: Seq<u8>,
) -> bool;

/// The lowercase mapping of `s`, as `str::to_lowercase` defines it (each
/// character mapped by Unicode's `Lowercase` property).
pub uninterp spec fn lowercase_of(s: Seq<char>) -> Seq<char>;

/// Whether every character of `s` is ASCII.
pub open spec fn is_ascii(s: Seq<char>) -> bool {
    forall|i: int| 0 <= i < s.len() ==> (#[trigger] s[i] as u32) < 128
}

/// The ASCII lowercase of a character: `A` to `Z` become `a` to `z`, any
/// other character is kept.
pub open spec fn ascii_lower_char(c: char) -> char {
    if 'A' <= c && c <= 'Z' {
        ((c as u32) + 32) as char
    } else {
        c
    }
}

/// `s` with each character taken to its ASCII lowercase.
pub open spec fn ascii_lowercase(s: Seq<char>) -> Seq<char> {
    s.map_values(|c: char| ascii_lower_char(c))
}

/// `str::to_lowercase`: the lowercase equivalent of `s`. On ASCII text this
/// maps `A` to `Z` to `a` to `z` and keeps every other character (in
/// particular, a string of ASCII lowercase letters is its own lowercase
/// equivalent); what it gives for other characters is left to the name.
#[verifier::external_body]
pub fn to_lowercase(s: &str) -> (r: String)
    ensures
        r@ == lowercase_of(s@),
        is_ascii(s@) ==> r@ == ascii_lowercase(s@),
        (forall|i: int| 0 <= i < s@.len() ==> 'a' <= #[trigger] s@[i] <= 'z') ==> r@ == s@,
{
    s.to_lowercase()
}

/// The value of a hexadecimal digit.
pub open spec fn hex_digit(c: char) -> Option<u8> {
    if '0' <= c && c <= '9' {
        Some((c as u8 - 48) as u8)
    } else if 'a' <= c && c <= 'f' {
        Some((c as u8 - 87) as u8)
    } else if 'A' <= c && c <= 'F' {
        Some((c as u8 - 55) as u8)
    } else {
        None
    }
}

/// The bytes a hexadecimal string denotes (two digits per byte, either case):
/// `None` when the length is odd or a character is not a hex digit.
pub open spec fn hex_decoded(s: Seq<char>) -> Option<Seq<u8>> {
    if s.len() % 2 == 0 && forall|i: int| 0 <= i < s.len() ==> (#[trigger] hex_digit(s[i])) is Some {
        Some(
            Seq::new(
                s.len() / 2,
                |i: int| (hex_digit(s[2 * i])->0 * 16 + hex_digit(s[2 * i + 1])->0) as u8,
            ),
        )
    } else {
        None
    }
}

/// `hex::decode`: the bytes of a hexadecimal string, or the error's message
/// when it is not one (odd length or a non-hex character). The message text is
/// the crate's and is not stated.
#[verifier::external_body]
pub fn hex_decode(s: &str) -> (r: Result<Vec<u8>, String>)
    ensures
        r is Ok <==> hex_decoded(s@) is Some,
        r matches Ok(b) ==> hex_decoded(s@) == Some(b@),
{
    match hex::decode(s) {
        Ok(bytes) => Ok(bytes),
        Err(e) => Err(e.to_string()),
    }
}

/// `usize`'s `ToString`: the decimal digits of `n`.
#[verifier::external_body]
pub fn usize_to_string(n: usize) -> (s: String)
    ensures
        s@ == decimal(n as nat),
{
    n.to_string()
}

/// `sha2::Sha256::digest`: the 32-byte SHA-256 digest of `data`.
#[verifier::external_body]
pub fn sha256_digest(data: &[u8]) -> (h: [u8; 32])
    ensures
        h@ == sha256(data@),
{
    sha2::Sha256::digest(data).into()
}

/// `ed25519_dalek::VerifyingKey::verify` on the key decoded from `public_key`
/// (`VerifyingKey::from_bytes`; a key that does not decode verifies nothing).
/// The result is `ed25519_accepts` of the three byte strings.
#[verifier::external_body]
pub fn ed25519_verify(public_key: &[u8; 32], message: &[u8], signature: &[u8; 64]) -> (ok: bool)
    ensures
        ok == ed25519_accepts(public_key@, message@, signature@),
{
    match ed25519_dalek::VerifyingKey::from_bytes(public_key) {
        Ok(key) => key.verify(message, &ed25519_dalek::Signature::from_bytes(signature)).is_ok(),
        Err(_) => false,
    }
}

/// `ed25519_dalek::SigningKey::sign` with a key fresh from
/// `SigningKey::generate` over the operating system's randomness: returns the
/// encoded verifying key and the signature of `message`. The key is random;
/// what holds of every outcome is that the signature verifies under the key,
/// as the crate documents for `sign` and `verify`.
#[verifier::external_body]
pub fn ed25519_sign_fresh(message: &[u8]) -> (r: ([u8; 32], [u8; 64]))
    ensures
        ed25519_accepts(r.0@, message@, r.1@),
{
    let key = ed25519_dalek::SigningKey::generate(&mut rand_core::OsRng);
    (key.verifying_key().to_bytes(), key.sign(message).to_bytes())
}

/// `k256::ecdsa::VerifyingKey::verify` on the key decoded from SEC1 bytes
/// (`VerifyingKey::from_sec1_bytes`) and the signature decoded from DER
/// (`Signature::from_der`); bytes that do not decode verify nothing. The result
/// is `secp256k1_accepts` of the three byte strings.
#[verifier::external_body]
pub fn secp256k1_verify(public_key: &[u8], message: &[u8], signature: &[u8]) -> (ok: bool)
    ensures
        ok == secp256k1_accepts(public_key@, message@, signature@),
{
    let Ok(key) = k256::ecdsa::VerifyingKey::from_sec1_bytes(public_key) else {
        return false;
    };
    let Ok(sig) = k256::ecdsa::Signature::from_der(signature) else {
        return false;
    };
    key.verify(message, &sig).is_ok()
}

/// `k256::ecdsa::SigningKey::sign` with a key fresh from `SigningKey::random`
/// over the operating system's randomness: returns the uncompressed SEC1
/// verifying key and the DER signature of `message`. The key is random; what
/// holds of every outcome is that the signature verifies under the key.
#[verifier::external_body]
pub fn secp256k1_sign_fresh(message: &[u8]) -> (r: (Vec<u8>, Vec<u8>))
    ensures
        secp256k1_accepts(r.0@, message@, r.1@),
{
    let key = k256::ecdsa::SigningKey::random(&mut rand_core::OsRng);
    let signature: k256::ecdsa::Signature = key.sign(message);
    (
        key.verifying_key().to_encoded_point(false).as_bytes().to_vec(),
        signature.to_der().as_bytes().to_vec(),
    )
}

/// `num_bigint::BigUint::pow`: `base^exponent`, in shortest big-endian bytes.
#[verifier::external_body]
pub fn big_pow(base: &[u8], exponent: u32) -> (r: Vec<u8>)
    ensures
        r@ == min_be_bytes(pow(be_value(base@) as int, exponent as nat) as nat),
{
    num_bigint::BigUint::from_bytes_be(base).pow(exponent).to_bytes_be()
}

/// `num_integer::Integer::div_rem` on `BigUint`: quotient and remainder of
/// `a / b`, in shortest big-endian bytes. Panics on a zero divisor, which the
/// precondition rules out.
#[verifier::external_body]
pub fn big_div_rem(a: &[u8], b: &[u8]) -> (r: (Vec<u8>, Vec<u8>))
    requires
        be_value(b@) != 0,
    ensures
        r.0@ == min_be_bytes(be_value(a@) / be_value(b@)),
        r.1@ == min_be_bytes(be_value(a@) % be_value(b@)),
{
    let (q, m) = num_bigint::BigUint::from_bytes_be(a).div_rem(
        &num_bigint::BigUint::from_bytes_be(b),
    );
    (q.to_bytes_be(), m.to_bytes_be())
}

/// `num_bigint::BigUint::to_str_radix(10)`: the decimal digits of the value.
#[verifier::external_body]
pub fn big_to_decimal(a: &[u8]) -> (s: String)
    ensures
        s@ == decimal(be_value(a@)),
{
    num_bigint::BigUint::from_bytes_be(a).to_str_radix(10)
}

} // verus!
