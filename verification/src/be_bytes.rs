//! Big-endian encoding of unsigned integers, as `u64::to_be_bytes` and
//! `u64::from_be_bytes` define it.

use vstd::prelude::*;

verus! {

/// `256` raised to the power `n`.
pub open spec fn pow256(n: nat) -> nat
    decreases n,
{
    if n == 0 {
        1
    } else {
        256 * pow256((n - 1) as nat)
    }
}

/// The number that a big-endian byte sequence denotes.
pub open spec fn be_value(bytes: Seq<u8>) -> nat
    decreases bytes.len(),
{
    if bytes.len() == 0 {
        0
    } else {
        be_value(bytes.drop_last()) * 256 + bytes.last() as nat
    }
}

/// The `n` low-order bytes of `x`, most significant first.
pub open spec fn be_bytes(x: nat, n: nat) -> Seq<u8>
    decreases n,
{
    if n == 0 {
        Seq::empty()
    } else {
        be_bytes(x / 256, (n - 1) as nat).push((x % 256) as u8)
    }
}

/// The eight bytes that `u64::to_be_bytes` gives for `x`.
pub open spec fn u64_be(x: u64) -> Seq<u8> {
    be_bytes(x as nat, 8)
}

pub proof fn lemma_pow256_positive(n: nat)
    ensures
        pow256(n) > 0,
    decreases n,
{
    if n > 0 {
        lemma_pow256_positive((n - 1) as nat);
    }
}

pub proof fn lemma_pow256_8()
    ensures
        pow256(8) == 0x1_0000_0000_0000_0000,
{
    reveal_with_fuel(pow256, 9);
}

/// `be_bytes(x, n)` holds exactly `n` bytes.
pub proof fn lemma_be_bytes_len(x: nat, n: nat)
    ensures
        be_bytes(x, n).len() == n,
    decreases n,
{
    if n > 0 {
        lemma_be_bytes_len(x / 256, (n - 1) as nat);
    }
}

/// Decoding the `n` bytes of `x` gives `x` modulo `256^n`.
pub proof fn lemma_be_roundtrip(x: nat, n: nat)
    ensures
        be_value(be_bytes(x, n)) == x % pow256(n),
    decreases n,
{
    if n == 0 {
    } else {
        let p = pow256((n - 1) as nat);
        lemma_be_roundtrip(x / 256, (n - 1) as nat);
        lemma_pow256_positive((n - 1) as nat);
        assert(be_bytes(x, n).drop_last() == be_bytes(x / 256, (n - 1) as nat));
        vstd::arithmetic::div_mod::lemma_breakdown(x as int, 256, p as int);
        assert(pow256(n) == 256 * p);
        assert(be_value(be_bytes(x, n)) == ((x / 256) % p) * 256 + x % 256);
        vstd::arithmetic::mul::lemma_mul_is_commutative(256, ((x / 256) % p) as int);
    }
}

/// A byte sequence denotes a number below `256^len`.
pub proof fn lemma_be_value_bound(bytes: Seq<u8>)
    ensures
        be_value(bytes) < pow256(bytes.len()),
    decreases bytes.len(),
{
    if bytes.len() > 0 {
        let rest = bytes.drop_last();
        lemma_be_value_bound(rest);
        let v = be_value(rest);
        let p = pow256(rest.len());
        assert(v * 256 + bytes.last() < p * 256) by (nonlinear_arith)
            requires
                v < p,
                bytes.last() < 256,
        ;
    }
}

/// The eight big-endian bytes of a `u64` denote that `u64`.
pub proof fn lemma_u64_be_roundtrip(x: u64)
    ensures
        u64_be(x).len() == 8,
        be_value(u64_be(x)) == x,
{
    lemma_be_bytes_len(x as nat, 8);
    lemma_be_roundtrip(x as nat, 8);
    lemma_pow256_8();
}

fn be_bytes_of(x: u64, n: usize) -> (r: Vec<u8>)
    requires
        n <= 8,
    ensures
        r@ == be_bytes(x as nat, n as nat),
    decreases n,
{
    if n == 0 {
        Vec::new()
    } else {
        let mut v = be_bytes_of(x / 256, n - 1);
        v.push((x % 256) as u8);
        v
    }
}

/// The eight bytes of `x`, most significant first.
pub fn u64_to_be_bytes(x: u64) -> (r: Vec<u8>)
    ensures
        r@ == u64_be(x),
        r@.len() == 8,
        be_value(r@) == x,
{
    proof {
        lemma_u64_be_roundtrip(x);
    }
    be_bytes_of(x, 8)
}

/// The `u64` that eight big-endian bytes denote.
pub fn u64_from_be_bytes(bytes: &[u8]) -> (x: u64)
    requires
        bytes@.len() == 8,
    ensures
        x == be_value(bytes@),
{
    let mut acc: u64 = 0;
    let mut i: usize = 0;
    proof {
        lemma_pow256_8();
    }
    while i < 8
        invariant
            i <= 8,
            bytes@.len() == 8,
            pow256(8) == 0x1_0000_0000_0000_0000,
            acc == be_value(bytes@.subrange(0, i as int)),
        decreases 8 - i,
    {
        let ghost prefix = bytes@.subrange(0, i as int + 1);
        assert(prefix.drop_last() == bytes@.subrange(0, i as int));
        proof {
            lemma_be_value_bound(prefix);
            lemma_pow256_monotone(prefix.len(), 8);
        }
        acc = acc * 256 + bytes[i] as u64;
        i = i + 1;
    }
    assert(bytes@.subrange(0, 8) == bytes@);
    acc
}

pub proof fn lemma_pow256_monotone(m: nat, n: nat)
    requires
        m <= n,
    ensures
        pow256(m) <= pow256(n),
    decreases n,
{
    if m < n {
        lemma_pow256_monotone(m, (n - 1) as nat);
    }
}

} // verus!
