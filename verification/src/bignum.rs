//! Arbitrary-precision unsigned amounts.
//!
//! A [`BigNumber`] keeps the shortest big-endian bytes of its value, the same
//! bytes `num_bigint::BigUint::to_bytes_be` produces, so the value determines the
//! representation.
use crate::be::{
    be_value, is_min_be, lemma_be_bytes_roundtrip, lemma_be_value_leading_zero, lemma_be_value_zero,
    lemma_min_be_bytes, lemma_min_be_unique, lemma_pow256_values, min_be_bytes, pow256, u64_to_be_bytes,
};
use vstd::prelude::*;

verus! {

/// An unsigned integer of any size, in its shortest big-endian bytes.
#[derive(Debug, PartialEq, Eq)]
pub struct BigNumber {
    bytes: Vec<u8>,
}

impl View for BigNumber {
    type V = nat;

    closed spec fn view(&self) -> nat {
        be_value(self.bytes@)
    }
}

impl BigNumber {
    #[verifier::type_invariant]
    spec fn shortest(self) -> bool {
        is_min_be(self.bytes@)
    }

    /// Zero.
    pub fn zero() -> (r: BigNumber)
        ensures
            r@ == 0,
    {
        let r = BigNumber { bytes: vec![0u8] };
        proof {
            reveal_with_fuel(be_value, 2);
            assert(r.bytes@.drop_last() =~= Seq::<u8>::empty());
        }
        r
    }

    /// Whether the value is zero.
    pub fn is_zero(&self) -> (b: bool)
        ensures
            b == (self@ == 0),
    {
        proof {
            use_type_invariant(self);
            lemma_be_value_zero(self.bytes@);
        }
        self.bytes.len() == 1 && self.bytes[0] == 0
    }

    /// The value of big-endian `bytes` (leading zero bytes allowed).
    pub fn from_bytes_be(bytes: &[u8]) -> (r: BigNumber)
        ensures
            r@ == be_value(bytes@),
    {
        let n = bytes.len();
        if n == 0 {
            return BigNumber::zero();
        }
        let mut k: usize = 0;
        assert(bytes@.subrange(0, n as int) =~= bytes@);
        while k + 1 < n && bytes[k] == 0
            invariant
                n == bytes@.len(),
                n >= 1,
                k < n,
                be_value(bytes@.subrange(k as int, n as int)) == be_value(bytes@),
            decreases n - k,
        {
            proof {
                let t = bytes@.subrange(k + 1, n as int);
                assert(bytes@.subrange(k as int, n as int) =~= seq![0u8] + t);
                lemma_be_value_leading_zero(t);
            }
            k = k + 1;
        }
        let mut out: Vec<u8> = Vec::new();
        let mut i = k;
        while i < n
            invariant
                n == bytes@.len(),
                k <= i <= n,
                out@ =~= bytes@.subrange(k as int, i as int),
            decreases n - i,
        {
            out.push(bytes[i]);
            i = i + 1;
        }
        proof {
            assert(out@.len() >= 1);
            if out@.len() > 1 {
                assert(out@[0] == bytes@[k as int]);
            }
        }
        BigNumber { bytes: out }
    }

    /// The shortest big-endian bytes of the value (what `BigUint::to_bytes_be` gives).
    pub fn to_bytes_be(&self) -> (r: Vec<u8>)
        ensures
            r@ == min_be_bytes(self@),
    {
        proof {
            use_type_invariant(self);
            lemma_min_be_unique(self.bytes@);
        }
        let mut out: Vec<u8> = Vec::new();
        let mut i: usize = 0;
        while i < self.bytes.len()
            invariant
                i <= self.bytes@.len(),
                out@ =~= self.bytes@.subrange(0, i as int),
            decreases self.bytes@.len() - i,
        {
            out.push(self.bytes[i]);
            i = i + 1;
        }
        proof {
            assert(self.bytes@.subrange(0, i as int) =~= self.bytes@);
        }
        out
    }

    /// A `u64` amount.
    pub fn from_u64(v: u64) -> (r: BigNumber)
        ensures
            r@ == v as nat,
    {
        let b = u64_to_be_bytes(v);
        proof {
            lemma_pow256_values();
            lemma_be_bytes_roundtrip(v as nat, 8);
        }
        BigNumber::from_bytes_be(&b)
    }

    /// A `u128` amount.
    pub fn from_u128(v: u128) -> (r: BigNumber)
        ensures
            r@ == v as nat,
    {
        let hi = u64_to_be_bytes((v / 0x1_0000_0000_0000_0000) as u64);
        let lo = u64_to_be_bytes((v % 0x1_0000_0000_0000_0000) as u64);
        let mut all: Vec<u8> = Vec::new();
        let mut i: usize = 0;
        while i < 8
            invariant
                i <= 8,
                all@ =~= hi@.subrange(0, i as int),
            decreases 8 - i,
        {
            all.push(hi[i]);
            i = i + 1;
        }
        let mut j: usize = 0;
        while j < 8
            invariant
                j <= 8,
                all@ =~= hi@ + lo@.subrange(0, j as int),
            decreases 8 - j,
        {
            all.push(lo[j]);
            j = j + 1;
        }
        proof {
            assert(lo@.subrange(0, 8) =~= lo@);
            let h = v as nat / 0x1_0000_0000_0000_0000;
            let l = v as nat % 0x1_0000_0000_0000_0000;
            lemma_pow256_values();
            vstd::arithmetic::div_mod::lemma_fundamental_div_mod(
                v as int,
                0x1_0000_0000_0000_0000,
            );
            lemma_be_bytes_roundtrip(h, 8);
            lemma_be_bytes_roundtrip(l, 8);
            lemma_be_value_concat(hi@, lo@);
            assert(h * pow256(8) + l == v);
        }
        BigNumber::from_bytes_be(all.as_slice())
    }
}

impl Clone for BigNumber {
    fn clone(&self) -> (r: Self)
        ensures
            r@ == self@,
    {
        let bytes = self.to_bytes_be();
        proof {
            lemma_min_be_bytes(self@);
        }
        BigNumber { bytes }
    }
}

/// The character of a decimal digit.
pub open spec fn digit_char(d: nat) -> char {
    (d + 48) as char
}

/// The decimal digits of `n`, most significant first, without leading zeros
/// (zero is `"0"`).
pub open spec fn decimal(n: nat) -> Seq<char>
    decreases n,
{
    if n < 10 {
        seq![digit_char(n)]
    } else {
        decimal(n / 10).push(digit_char(n % 10))
    }
}

/// The value of a concatenation.
pub proof fn lemma_be_value_concat(a: Seq<u8>, b: Seq<u8>)
    ensures
        be_value(a + b) == be_value(a) * pow256(b.len()) + be_value(b),
    decreases b.len(),
{
    if b.len() == 0 {
        assert(a + b =~= a);
        assert(pow256(0) == 1);
        assert(be_value(b) == 0);
        assert(be_value(a) * 1 == be_value(a));
    } else {
        let bp = b.drop_last();
        lemma_be_value_concat(a, bp);
        assert((a + b).drop_last() =~= a + bp);
        assert((a + b).last() == b.last());
        let x = be_value(a);
        assert(pow256(b.len()) == 256 * pow256(bp.len()));
        assert(be_value(b) == be_value(bp) * 256 + b.last() as nat);
        let p = pow256(bp.len());
        let y = be_value(bp);
        assert((x * p + y) * 256 + b.last() as nat == x * (256 * p) + (y * 256 + b.last() as nat))
            by (nonlinear_arith);
    }
}

} // verus!
