//! Unsigned integers as big-endian bytes, as option values carry them
use vstd::prelude::*;

verus! {

/// The number that big-endian bytes stand for.
pub open spec fn spec_be_uint(s: Seq<u8>) -> nat
    decreases s.len(),
{
    if s.len() == 0 {
        0
    } else {
        spec_be_uint(s.drop_last()) * 256 + s.last() as nat
    }
}

/// The `n` big-endian bytes of `v`, cut to its low `n` bytes.
pub open spec fn spec_be_bytes(v: nat, n: nat) -> Seq<u8>
    decreases n,
{
    if n == 0 {
        seq![]
    } else {
        spec_be_bytes(v / 256, (n - 1) as nat).push((v % 256) as u8)
    }
}

/// `256` to the power `n`.
pub open spec fn pow256(n: nat) -> nat
    decreases n,
{
    if n == 0 {
        1
    } else {
        256 * pow256((n - 1) as nat)
    }
}

/// `n` bytes stand for numbers below `256^n`.
pub proof fn lemma_be_uint_bound(s: Seq<u8>)
    ensures
        spec_be_uint(s) < pow256(s.len()),
    decreases s.len(),
{
    if s.len() > 0 {
        lemma_be_uint_bound(s.drop_last());
        let a = spec_be_uint(s.drop_last());
        let p = pow256(s.drop_last().len());
        assert(a * 256 + s.last() < 256 * p) by (nonlinear_arith)
            requires
                a < p,
                s.last() < 256,
        ;
    }
}

/// Writing `n` bytes of `v` and reading them back gives `v` cut to `n` bytes.
pub proof fn lemma_be_roundtrip(v: nat, n: nat)
    ensures
        spec_be_bytes(v, n).len() == n,
        spec_be_uint(spec_be_bytes(v, n)) == v % pow256(n),
    decreases n,
{
    if n > 0 {
        lemma_be_roundtrip(v / 256, (n - 1) as nat);
        let b = spec_be_bytes(v, n);
        assert(b.drop_last() =~= spec_be_bytes(v / 256, (n - 1) as nat));
        assert(pow256(n) == 256 * pow256((n - 1) as nat));
        lemma_pow256_mono(0, (n - 1) as nat);
        vstd::arithmetic::div_mod::lemma_breakdown(v as int, 256, pow256((n - 1) as nat) as int);
    }
}

/// The powers of 256 that the integer types reach.
pub proof fn lemma_pow256_values()
    ensures
        pow256(1) == 0x100,
        pow256(2) == 0x1_0000,
        pow256(4) == 0x1_0000_0000,
        pow256(8) == 0x1_0000_0000_0000_0000,
{
    reveal_with_fuel(pow256, 9);
}

/// The number that up to 8 big-endian bytes stand for
pub(crate) fn be_uint(b: &[u8]) -> (r: u64)
    requires
        b@.len() <= 8,
    ensures
        r == spec_be_uint(b@),
{
    let mut acc: u64 = 0;
    let mut i: usize = 0;
    proof {
        lemma_pow256_values();
    }
    assert(b@.take(0) =~= Seq::<u8>::empty());
    while i < b.len()
        invariant
            0 <= i <= b.len() <= 8,
            acc == spec_be_uint(b@.take(i as int)),
            pow256(8) == 0x1_0000_0000_0000_0000,
        decreases b.len() - i,
    {
        proof {
            lemma_be_uint_bound(b@.take(i as int));
            lemma_pow256_mono(i as nat + 1, 8);
            let a = acc as int;
            let p = pow256(i as nat);
            assert(a * 256 + 255 < 256 * p) by (nonlinear_arith)
                requires
                    a < p,
            ;
            assert(b@.take(i + 1).drop_last() =~= b@.take(i as int));
        }
        acc = acc * 256 + b[i] as u64;
        i = i + 1;
    }
    assert(b@.take(i as int) =~= b@);
    acc
}

/// Powers of 256 grow with the exponent.
pub proof fn lemma_pow256_mono(a: nat, b: nat)
    requires
        a <= b,
    ensures
        pow256(a) <= pow256(b),
    decreases b,
{
    if a < b {
        lemma_pow256_mono(a, (b - 1) as nat);
    }
}

/// The `n` big-endian bytes of `v`
pub(crate) fn be_bytes(v: u64, n: usize) -> (r: Vec<u8>)
    ensures
        r@ == spec_be_bytes(v as nat, n as nat),
    decreases n,
{
    if n == 0 {
        Vec::new()
    } else {
        let mut r = be_bytes(v / 256, n - 1);
        r.push((v % 256) as u8);
        r
    }
}

} // verus!
