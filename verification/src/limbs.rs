//! Natural numbers of any size, as little-endian sequences of 64-bit limbs.
//!
//! The dispatcher and the capacity rule of the cache compare integer powers
//! that exceed every machine word. The functions here evaluate such powers
//! exactly.

use vstd::prelude::*;
use vstd::arithmetic::power::{pow, lemma_pow0, lemma_pow_adds, lemma_pow1};
use vstd::arithmetic::power2::{lemma2_to64, lemma_pow2_adds, lemma_pow2_pos, pow2};
use crate::numeric::{bit_floor, lemma_log2_floor_bounds, lemma_log2_floor_is, log2_floor};

verus! {

/// The value of one limb position: 2^64.
pub open spec fn radix() -> nat {
    0x1_0000_0000_0000_0000
}

/// `radix()` raised to the power `n`.
pub open spec fn radix_pow(n: nat) -> nat
    decreases n,
{
    if n == 0 {
        1
    } else {
        radix() * radix_pow((n - 1) as nat)
    }
}

/// The number that a little-endian sequence of limbs stands for.
pub open spec fn limbs_value(limbs: Seq<u64>) -> nat
    decreases limbs.len(),
{
    if limbs.len() == 0 {
        0
    } else {
        limbs_value(limbs.drop_last()) + limbs.last() as nat * radix_pow((limbs.len() - 1) as nat)
    }
}

/// A sequence of `n` limbs stands for a number below `radix()^n`.
pub proof fn lemma_limbs_value_bound(limbs: Seq<u64>)
    ensures
        limbs_value(limbs) < radix_pow(limbs.len()),
    decreases limbs.len(),
{
    if limbs.len() > 0 {
        lemma_limbs_value_bound(limbs.drop_last());
        let p = radix_pow((limbs.len() - 1) as nat);
        let d = limbs.last() as nat;
        assert(d * p + p <= radix() * p) by (nonlinear_arith)
            requires
                d + 1 <= radix(),
        ;
    }
}

/// Appending a limb adds its value at the new top position.
pub proof fn lemma_limbs_value_push(limbs: Seq<u64>, d: u64)
    ensures
        limbs_value(limbs.push(d)) == limbs_value(limbs) + d as nat * radix_pow(limbs.len()),
{
    assert(limbs.push(d).drop_last() =~= limbs);
}

/// Multiplies a limb sequence by a single limb.
pub fn limbs_mul(x: &Vec<u64>, m: u64) -> (out: Vec<u64>)
    ensures
        out.len() == x.len() + 1,
        limbs_value(out@) == limbs_value(x@) * m as nat,
{
    let mut out: Vec<u64> = Vec::new();
    let mut carry: u128 = 0;
    let mut i: usize = 0;
    proof {
        assert(x@.take(0) =~= Seq::<u64>::empty());
        assert(limbs_value(x@.take(0)) == 0);
        assert(limbs_value(out@) == 0);
        assert(limbs_value(x@.take(0)) * m as nat == 0) by (nonlinear_arith)
            requires
                limbs_value(x@.take(0)) == 0,
        ;
    }
    while i < x.len()
        invariant
            i <= x.len(),
            out.len() == i,
            carry < radix(),
            limbs_value(out@) + carry as nat * radix_pow(i as nat) == limbs_value(x@.take(i as int))
                * m as nat,
        decreases x.len() - i,
    {
        let xi = x[i];
        assert(xi as u128 * m as u128 + carry <= 0xffff_ffff_ffff_ffff * 0xffff_ffff_ffff_ffff
            + 0xffff_ffff_ffff_ffff) by (nonlinear_arith)
            requires
                xi as u128 <= 0xffff_ffff_ffff_ffff,
                m as u128 <= 0xffff_ffff_ffff_ffff,
                carry <= 0xffff_ffff_ffff_ffff,
        ;
        let t: u128 = xi as u128 * m as u128 + carry;
        let d: u64 = (t % 0x1_0000_0000_0000_0000) as u64;
        let next: u128 = t / 0x1_0000_0000_0000_0000;
        proof {
            let v = limbs_value(out@);
            let p = radix_pow(i as nat);
            let xv = limbs_value(x@.take(i as int));
            lemma_limbs_value_push(out@, d);
            assert(x@.take(i + 1).drop_last() =~= x@.take(i as int));
            assert(limbs_value(x@.take(i + 1)) == xv + xi as nat * p);
            assert(radix_pow((i + 1) as nat) == radix() * p);
            assert(v + d as nat * p + next as nat * (radix() * p) == (xv + xi as nat * p)
                * m as nat) by (nonlinear_arith)
                requires
                    v + carry as nat * p == xv * m as nat,
                    t as nat == next as nat * radix() + d as nat,
                    t as nat == xi as nat * m as nat + carry as nat,
            ;
        }
        out.push(d);
        carry = next;
        i = i + 1;
    }
    proof {
        assert(x@.take(x.len() as int) =~= x@);
        lemma_limbs_value_push(out@, carry as u64);
    }
    out.push(carry as u64);
    out
}

/// A limb sequence without a zero limb at its top.
pub open spec fn is_trimmed(limbs: Seq<u64>) -> bool {
    limbs.len() == 0 || limbs.last() != 0
}

/// A limb position is worth 64 binary digits.
pub proof fn lemma_radix_pow_is_pow2(n: nat)
    ensures
        radix_pow(n) == pow2(64 * n),
    decreases n,
{
    lemma2_to64();
    if n > 0 {
        lemma_radix_pow_is_pow2((n - 1) as nat);
        lemma_pow2_adds(64, 64 * (n - 1) as nat);
    }
}

/// A trimmed sequence of `n > 0` limbs stands for a number of at least
/// `radix()^(n - 1)`.
pub proof fn lemma_trimmed_value_bound(limbs: Seq<u64>)
    requires
        limbs.len() > 0,
        is_trimmed(limbs),
    ensures
        limbs_value(limbs) >= radix_pow((limbs.len() - 1) as nat),
{
    let p = radix_pow((limbs.len() - 1) as nat);
    let d = limbs.last() as nat;
    assert(d * p >= p) by (nonlinear_arith)
        requires
            d >= 1,
    ;
}

/// Removes the zero limbs at the top of a limb sequence.
pub fn limbs_trim(x: Vec<u64>) -> (out: Vec<u64>)
    ensures
        limbs_value(out@) == limbs_value(x@),
        is_trimmed(out@),
        out.len() <= x.len(),
{
    let mut out = x;
    while out.len() > 0 && out[out.len() - 1] == 0
        invariant
            limbs_value(out@) == limbs_value(x@),
            out.len() <= x.len(),
        decreases out.len(),
    {
        proof {
            assert(out@.subrange(0, out.len() - 1) =~= out@.drop_last());
            assert(0 * radix_pow((out.len() - 1) as nat) == 0);
        }
        out.pop();
    }
    out
}

/// Raises `base` to the power `exp` on limbs.
pub fn limbs_pow(base: u64, exp: u128) -> (out: Vec<u64>)
    ensures
        limbs_value(out@) == pow(base as int, exp as nat),
        is_trimmed(out@),
{
    let mut out: Vec<u64> = Vec::new();
    out.push(1);
    proof {
        lemma_limbs_value_push(Seq::<u64>::empty(), 1);
        assert(out@ =~= Seq::<u64>::empty().push(1));
        lemma_pow0(base as int);
    }
    let mut k: u128 = 0;
    while k < exp
        invariant
            k <= exp,
            limbs_value(out@) == pow(base as int, k as nat),
            is_trimmed(out@),
        decreases exp - k,
    {
        proof {
            lemma_pow_adds(base as int, k as nat, 1);
            lemma_pow1(base as int);
        }
        out = limbs_trim(limbs_mul(&out, base));
        k = k + 1;
    }
    out
}

/// Computes the binary logarithm, rounded down, of the number that a
/// trimmed limb sequence stands for.
pub fn limbs_log2(x: &Vec<u64>) -> (r: u128)
    requires
        x.len() > 0,
        is_trimmed(x@),
    ensures
        r as nat == log2_floor(limbs_value(x@)),
        limbs_value(x@) >= 1,
{
    let top = x[x.len() - 1];
    let b = bit_floor(top);
    let below: u128 = (x.len() - 1) as u128;
    proof {
        let n = (x.len() - 1) as nat;
        let p = radix_pow(n);
        let low = limbs_value(x@.drop_last());
        let d = top as nat;
        lemma_limbs_value_bound(x@.drop_last());
        lemma_radix_pow_is_pow2(n);
        lemma_log2_floor_bounds(d);
        lemma_pow2_adds(b as nat, 64 * n);
        lemma_pow2_adds(b as nat + 1, 64 * n);
        lemma_pow2_pos(64 * n);
        assert(pow2(b as nat) * p <= d * p) by (nonlinear_arith)
            requires
                pow2(b as nat) <= d,
        ;
        assert(d * p + p <= pow2(b as nat + 1) * p) by (nonlinear_arith)
            requires
                d + 1 <= pow2(b as nat + 1),
        ;
        lemma_log2_floor_is(limbs_value(x@), b as nat + 64 * n);
    }
    64 * below + b as u128
}

/// Extends a limb sequence with zero limbs up to `len` limbs.
pub fn limbs_pad(x: Vec<u64>, len: usize) -> (out: Vec<u64>)
    ensures
        out.len() == if x.len() < len {
            len
        } else {
            x.len()
        },
        limbs_value(out@) == limbs_value(x@),
{
    let mut out = x;
    while out.len() < len
        invariant
            out.len() >= x.len(),
            out.len() <= len || out.len() == x.len(),
            limbs_value(out@) == limbs_value(x@),
        decreases len - out.len(),
    {
        proof {
            lemma_limbs_value_push(out@, 0);
        }
        out.push(0);
    }
    out
}

/// Whether `x` stands for a larger number than `y`, for sequences of one
/// length.
pub fn limbs_greater(x: &Vec<u64>, y: &Vec<u64>) -> (r: bool)
    requires
        x.len() == y.len(),
    ensures
        r == (limbs_value(x@) > limbs_value(y@)),
{
    let mut i: usize = x.len();
    proof {
        assert(x@.take(i as int) =~= x@);
        assert(y@.take(i as int) =~= y@);
    }
    while i > 0
        invariant
            i <= x.len(),
            x.len() == y.len(),
            (limbs_value(x@) > limbs_value(y@)) == (limbs_value(x@.take(i as int)) > limbs_value(
                y@.take(i as int),
            )),
        decreases i,
    {
        let a = x[i - 1];
        let b = y[i - 1];
        proof {
            let xs = x@.take(i as int);
            let ys = y@.take(i as int);
            assert(xs.drop_last() =~= x@.take(i - 1));
            assert(ys.drop_last() =~= y@.take(i - 1));
            lemma_limbs_value_bound(x@.take(i - 1));
            lemma_limbs_value_bound(y@.take(i - 1));
            let p = radix_pow((i - 1) as nat);
            if a > b {
                assert(a as nat * p >= b as nat * p + p) by (nonlinear_arith)
                    requires
                        a as nat >= b as nat + 1,
                ;
            } else if a < b {
                assert(b as nat * p >= a as nat * p + p) by (nonlinear_arith)
                    requires
                        b as nat >= a as nat + 1,
                ;
            }
        }
        if a > b {
            return true;
        }
        if a < b {
            return false;
        }
        i = i - 1;
    }
    proof {
        assert(x@.take(0) =~= Seq::<u64>::empty());
        assert(y@.take(0) =~= Seq::<u64>::empty());
    }
    false
}

} // verus!
