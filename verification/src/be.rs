//! Big-endian byte encodings of natural numbers, as used by the journal layout.
use vstd::arithmetic::div_mod::{
    lemma_fundamental_div_mod, lemma_fundamental_div_mod_converse_div,
    lemma_fundamental_div_mod_converse_mod, lemma_mod_breakdown,
};
use vstd::prelude::*;

verus! {

/// `256^n`.
pub open spec fn pow256(n: nat) -> nat
    decreases n,
{
    if n == 0 {
        1
    } else {
        256 * pow256((n - 1) as nat)
    }
}

/// The number a big-endian byte string denotes.
pub open spec fn be_value(s: Seq<u8>) -> nat
    decreases s.len(),
{
    if s.len() == 0 {
        0
    } else {
        be_value(s.drop_last()) * 256 + s.last() as nat
    }
}

/// The `n` low-order bytes of `v`, most significant first (`v mod 256^n`).
pub open spec fn be_bytes(v: nat, n: nat) -> Seq<u8>
    decreases n,
{
    if n == 0 {
        Seq::empty()
    } else {
        be_bytes(v / 256, (n - 1) as nat).push((v % 256) as u8)
    }
}

/// `n` zero bytes.
pub open spec fn zeros(n: nat) -> Seq<u8> {
    Seq::new(n, |i: int| 0u8)
}

/// The shortest big-endian bytes of `v`: one byte for values below 256, and no
/// leading zero byte otherwise (zero is the single byte `0`).
pub open spec fn min_be_bytes(v: nat) -> Seq<u8>
    decreases v,
{
    if v < 256 {
        seq![v as u8]
    } else {
        min_be_bytes(v / 256).push((v % 256) as u8)
    }
}

/// Whether `s` is the shortest big-endian encoding of its value.
pub open spec fn is_min_be(s: Seq<u8>) -> bool {
    s.len() >= 1 && (s.len() == 1 || s[0] != 0)
}

pub proof fn lemma_pow256_positive(n: nat)
    ensures
        pow256(n) >= 1,
    decreases n,
{
    if n > 0 {
        lemma_pow256_positive((n - 1) as nat);
    }
}

pub proof fn lemma_pow256_monotone(a: nat, b: nat)
    requires
        a <= b,
    ensures
        pow256(a) <= pow256(b),
    decreases b,
{
    if a < b {
        lemma_pow256_monotone(a, (b - 1) as nat);
        lemma_pow256_positive((b - 1) as nat);
    }
}

pub proof fn lemma_pow256_values()
    ensures
        pow256(1) == 0x100,
        pow256(2) == 0x1_0000,
        pow256(8) == 0x1_0000_0000_0000_0000,
{
    reveal_with_fuel(pow256, 9);
}

/// Dividing by 256 and taking the remainder splits `v`.
pub proof fn lemma_split_256(v: nat)
    ensures
        v == (v / 256) * 256 + v % 256,
        v % 256 < 256,
{
    lemma_fundamental_div_mod(v as int, 256);
}

pub proof fn lemma_be_value_bound(s: Seq<u8>)
    ensures
        be_value(s) < pow256(s.len()),
    decreases s.len(),
{
    if s.len() > 0 {
        lemma_be_value_bound(s.drop_last());
        let p = be_value(s.drop_last());
        assert(p + 1 <= pow256((s.len() - 1) as nat));
        assert(p * 256 + 256 <= pow256((s.len() - 1) as nat) * 256) by (nonlinear_arith)
            requires
                p + 1 <= pow256((s.len() - 1) as nat),
        ;
    }
}

/// Extending by one byte: the value of `s.push(b)`.
pub proof fn lemma_be_value_push(s: Seq<u8>, b: u8)
    ensures
        be_value(s.push(b)) == be_value(s) * 256 + b,
{
    assert(s.push(b).drop_last() =~= s);
}

/// The value of the bytes of `v` is `v mod 256^n`.
pub proof fn lemma_be_bytes_value(v: nat, n: nat)
    ensures
        be_bytes(v, n).len() == n,
        be_value(be_bytes(v, n)) == v % pow256(n),
    decreases n,
{
    if n == 0 {
    } else {
        let m = (n - 1) as nat;
        lemma_be_bytes_value(v / 256, m);
        lemma_be_value_push(be_bytes(v / 256, m), (v % 256) as u8);
        lemma_pow256_positive(m);
        lemma_mod_breakdown(v as int, 256, pow256(m) as int);
        assert((256 * pow256(m)) as int == 256 * (pow256(m) as int));
        assert(((v / 256) % pow256(m)) * 256 == 256 * ((v / 256) % pow256(m)));
    }
}

/// Encoding a value that fits in `n` bytes loses nothing.
pub proof fn lemma_be_bytes_roundtrip(v: nat, n: nat)
    requires
        v < pow256(n),
    ensures
        be_value(be_bytes(v, n)) == v,
{
    lemma_be_bytes_value(v, n);
    vstd::arithmetic::div_mod::lemma_small_mod(v, pow256(n));
}

/// Bytes are recovered from their value.
pub proof fn lemma_be_value_bytes(s: Seq<u8>)
    ensures
        be_bytes(be_value(s), s.len()) =~= s,
    decreases s.len(),
{
    if s.len() > 0 {
        let p = s.drop_last();
        let v = be_value(s);
        lemma_be_value_bytes(p);
        lemma_fundamental_div_mod_converse_div(v as int, 256, be_value(p) as int, s.last() as int);
        lemma_fundamental_div_mod_converse_mod(v as int, 256, be_value(p) as int, s.last() as int);
        assert(be_bytes(v, s.len()) == be_bytes(v / 256, p.len()).push((v % 256) as u8));
    }
}

/// A value below `256^n` written in `n + k` bytes has `k` leading zero bytes.
pub proof fn lemma_be_bytes_pad(v: nat, n: nat, k: nat)
    requires
        v < pow256(n),
    ensures
        be_bytes(v, n + k) =~= zeros(k) + be_bytes(v, n),
    decreases n, k,
{
    if n == 0 {
        assert(v == 0);
        lemma_be_bytes_zero(k);
    } else {
        let m = (n - 1) as nat;
        lemma_split_256(v);
        assert(v / 256 < pow256(m)) by {
            assert(pow256(n) == 256 * pow256(m));
            lemma_fundamental_div_mod(v as int, 256);
        }
        lemma_be_bytes_pad(v / 256, m, k);
        assert(((n + k) - 1) as nat == m + k);
        assert(be_bytes(v, n + k) == be_bytes(v / 256, m + k).push((v % 256) as u8));
        assert(be_bytes(v, n) == be_bytes(v / 256, m).push((v % 256) as u8));
    }
}

/// Zero is written as zero bytes.
pub proof fn lemma_be_bytes_zero(k: nat)
    ensures
        be_bytes(0, k) =~= zeros(k),
    decreases k,
{
    if k > 0 {
        lemma_be_bytes_zero((k - 1) as nat);
    }
}

/// A byte string is zero exactly when all its bytes are.
pub proof fn lemma_be_value_zero(s: Seq<u8>)
    ensures
        be_value(s) == 0 <==> (forall|i: int| 0 <= i < s.len() ==> s[i] == 0),
    decreases s.len(),
{
    if s.len() > 0 {
        lemma_be_value_zero(s.drop_last());
        if be_value(s) == 0 {
            assert forall|i: int| 0 <= i < s.len() implies s[i] == 0 by {
                if i < s.len() - 1 {
                    assert(s.drop_last()[i] == s[i]);
                }
            }
        }
        if forall|i: int| 0 <= i < s.len() ==> s[i] == 0 {
            assert forall|i: int| 0 <= i < s.drop_last().len() implies s.drop_last()[i] == 0 by {
                assert(s.drop_last()[i] == s[i]);
            }
        }
    }
}

/// A leading zero byte does not change the value.
pub proof fn lemma_be_value_leading_zero(t: Seq<u8>)
    ensures
        be_value(seq![0u8] + t) == be_value(t),
    decreases t.len(),
{
    if t.len() == 0 {
        assert((seq![0u8] + t) =~= seq![0u8]);
        assert(seq![0u8].drop_last() =~= Seq::<u8>::empty());
        assert(be_value(seq![0u8]) == be_value(Seq::<u8>::empty()) * 256 + 0);
    } else {
        lemma_be_value_leading_zero(t.drop_last());
        assert((seq![0u8] + t).drop_last() =~= seq![0u8] + t.drop_last());
        assert((seq![0u8] + t).last() == t.last());
    }
}

/// The shortest encoding of `v` has value `v` and is shortest.
pub proof fn lemma_min_be_bytes(v: nat)
    ensures
        be_value(min_be_bytes(v)) == v,
        is_min_be(min_be_bytes(v)),
        min_be_bytes(v) =~= be_bytes(v, min_be_bytes(v).len()),
    decreases v,
{
    if v < 256 {
        assert(min_be_bytes(v).len() == 1);
        assert(is_min_be(min_be_bytes(v)));
        reveal_with_fuel(be_value, 2);
        reveal_with_fuel(be_bytes, 2);
        vstd::arithmetic::div_mod::lemma_small_mod(v, 256);
        vstd::arithmetic::div_mod::lemma_basic_div(v as int, 256);
    } else {
        lemma_split_256(v);
        assert(v / 256 >= 1) by {
            lemma_fundamental_div_mod(v as int, 256);
        }
        assert(v / 256 < v) by {
            lemma_fundamental_div_mod(v as int, 256);
        }
        lemma_min_be_bytes(v / 256);
        let p = min_be_bytes(v / 256);
        lemma_be_value_push(p, (v % 256) as u8);
        if v / 256 < 256 {
            assert(p[0] == (v / 256) as u8);
            assert(p.len() == 1);
            assert(p[0] != 0);
        } else {
            assert(v / 256 / 256 < v / 256) by {
                lemma_fundamental_div_mod((v / 256) as int, 256);
            }
            lemma_min_be_bytes(v / 256 / 256);
            assert(p == min_be_bytes(v / 256 / 256).push(((v / 256) % 256) as u8));
            assert(p.len() >= 2);
        }
        assert(min_be_bytes(v) == p.push((v % 256) as u8));
        assert(min_be_bytes(v).len() == p.len() + 1);
        assert(min_be_bytes(v)[0] == p[0]);
        assert(min_be_bytes(v)[0] != 0);
        assert(is_min_be(min_be_bytes(v)));
        assert(min_be_bytes(v)[0] == p[0]);
        assert(be_bytes(v, p.len() + 1) == be_bytes(v / 256, p.len()).push((v % 256) as u8));
    }
}

/// A shortest encoding is the shortest encoding of its value.
pub proof fn lemma_min_be_unique(s: Seq<u8>)
    requires
        is_min_be(s),
    ensures
        min_be_bytes(be_value(s)) =~= s,
    decreases s.len(),
{
    if s.len() == 1 {
        reveal_with_fuel(be_value, 2);
        assert(s.drop_last() =~= Seq::<u8>::empty());
    } else {
        let p = s.drop_last();
        assert(p[0] == s[0]);
        lemma_min_be_unique(p);
        lemma_be_value_zero(p);
        assert(be_value(p) != 0) by {
            assert(p[0] != 0);
        }
        let v = be_value(s);
        lemma_fundamental_div_mod_converse_div(v as int, 256, be_value(p) as int, s.last() as int);
        lemma_fundamental_div_mod_converse_mod(v as int, 256, be_value(p) as int, s.last() as int);
    }
}

/// The shortest encoding of `v` fits in `n >= 1` bytes exactly when `v < 256^n`.
pub proof fn lemma_min_be_len(v: nat, n: nat)
    requires
        n >= 1,
    ensures
        min_be_bytes(v).len() <= n <==> v < pow256(n),
    decreases v,
{
    if v < 256 {
        lemma_pow256_monotone(1, n);
        reveal_with_fuel(pow256, 2);
    } else {
        lemma_split_256(v);
        assert(v / 256 < v) by {
            lemma_fundamental_div_mod(v as int, 256);
        }
        if n == 1 {
            reveal_with_fuel(pow256, 2);
            lemma_min_be_bytes(v / 256);
        } else {
            let m = (n - 1) as nat;
            lemma_min_be_len(v / 256, m);
            // v < 256 * 256^m  <==>  v / 256 < 256^m
            lemma_fundamental_div_mod(v as int, 256);
            let q = v / 256;
            let r = v % 256;
            let pm = pow256(m);
            assert(v < 256 * pm <==> q < pm) by (nonlinear_arith)
                requires
                    v == q * 256 + r,
                    0 <= r < 256,
            ;
        }
    }
}

/// Big-endian bytes of a `u64`.
pub fn u64_to_be_bytes(v: u64) -> (out: [u8; 8])
    ensures
        out@ == be_bytes(v as nat, 8),
{
    let mut out = [0u8; 8];
    let mut x = v;
    let mut i: usize = 8;
    while i > 0
        invariant
            i <= 8,
            out@.len() == 8,
            be_bytes(v as nat, 8) =~= be_bytes(x as nat, i as nat) + out@.subrange(i as int, 8),
        decreases i,
    {
        let ghost prev = out@;
        out[i - 1] = (x % 256) as u8;
        proof {
            assert(be_bytes(x as nat, i as nat) == be_bytes(x as nat / 256, (i - 1) as nat).push(
                (x as nat % 256) as u8,
            ));
            assert(out@.subrange(i - 1, 8) =~= seq![(x % 256) as u8] + prev.subrange(i as int, 8));
        }
        x = x / 256;
        i = i - 1;
    }
    assert(out@.subrange(0, 8) =~= out@);
    out
}

/// Big-endian bytes of a `u16`.
pub fn u16_to_be_bytes(v: u16) -> (out: [u8; 2])
    ensures
        out@ == be_bytes(v as nat, 2),
{
    let out = [(v / 256) as u8, (v % 256) as u8];
    proof {
        reveal_with_fuel(be_bytes, 3);
        vstd::arithmetic::div_mod::lemma_small_mod((v / 256) as nat, 256);
        vstd::arithmetic::div_mod::lemma_basic_div((v / 256) as int, 256);
        assert(out@ =~= be_bytes(v as nat, 2));
    }
    out
}

/// The number denoted by at most eight big-endian bytes.
pub fn be_to_u64(s: &[u8]) -> (v: u64)
    requires
        s@.len() <= 8,
    ensures
        v as nat == be_value(s@),
{
    let mut acc: u64 = 0;
    let mut i: usize = 0;
    proof {
        lemma_pow256_values();
    }
    while i < s.len()
        invariant
            i <= s@.len() <= 8,
            acc as nat == be_value(s@.subrange(0, i as int)),
            pow256(8) == 0x1_0000_0000_0000_0000,
        decreases s@.len() - i,
    {
        proof {
            lemma_be_value_bound(s@.subrange(0, i + 1));
            lemma_pow256_monotone((i + 1) as nat, 8);
            assert(s@.subrange(0, i + 1).drop_last() =~= s@.subrange(0, i as int));
        }
        acc = acc * 256 + s[i] as u64;
        i = i + 1;
    }
    assert(s@.subrange(0, i as int) =~= s@);
    acc
}

} // verus!
