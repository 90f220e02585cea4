//! The effective threshold of the dispatcher.
//!
//! A batch of `len` items is weighed against the parallel threshold of the
//! configuration, scaled by a workload factor that is kept between one half
//! and two:
//!
//! ```text
//! factor = (log2(max(len, 1)) / 10) * (threads / 8) * 1.5
//!        = log2(max(len, 1) ^ (3 * threads)) / 160
//! ```
//!
//! With `weight = max(len, 1) ^ (3 * threads)` the factor is at most one half
//! exactly when `weight <= 2^80`, at least two exactly when
//! `weight >= 2^320`, and in between
//!
//! ```text
//! floor(base * factor) = floor(log2(weight ^ base) / 160)
//!                      = floor(log2(weight ^ base)) / 160
//! ```
//!
//! so the threshold is a quotient of the length in binary digits of an
//! integer power, which the executable code evaluates on limbs.

use vstd::prelude::*;
use vstd::arithmetic::power::{
    lemma0_pow,
    lemma1_pow,
    lemma_pow0,
    lemma_pow1,
    lemma_pow_adds,
    lemma_pow_increases,
    lemma_pow_multiplies,
    lemma_pow_positive,
    pow,
};
use vstd::arithmetic::div_mod::{lemma_div_is_ordered, lemma_div_multiples_vanish};
use vstd::arithmetic::power2::{
    lemma2_to64,
    lemma2_to64_rest,
    lemma_pow2,
    lemma_pow2_adds,
    lemma_pow2_pos,
    lemma_pow2_strictly_increases,
    lemma_pow2_unfold,
    pow2,
};
use crate::limbs::{
    lemma_limbs_value_bound,
    lemma_limbs_value_push,
    lemma_radix_pow_is_pow2,
    lemma_trimmed_value_bound,
    limbs_greater,
    limbs_log2,
    limbs_mul,
    limbs_pad,
    limbs_pow,
    limbs_trim,
    limbs_value,
    radix_pow,
};
use crate::numeric::{
    at_least,
    lemma_log2_floor_bounds,
    lemma_log2_floor_is,
    lemma_pow_base_monotonic,
    lemma_pow_base_strictly_monotonic,
    log2_floor,
    saturate,
    saturate_to_usize,
};
use crate::performance_patterns::config::PerformanceConfig;

verus! {

/// The binary digits of the weight up to which the factor is one half.
pub const HALF_FACTOR_BITS: u32 = 80;

/// The binary digits of the weight from which the factor is two.
pub const DOUBLE_FACTOR_BITS: u32 = 320;

/// The binary digits of the weight that make a factor of one.
pub const UNIT_FACTOR_BITS: u32 = 160;

/// The weight of a batch of `len` items for `threads` worker threads.
pub open spec fn workload_weight(len: nat, threads: nat) -> nat {
    pow(at_least(1, len) as int, 3 * threads) as nat
}

/// The parallel threshold `base`, scaled by the workload factor of a batch
/// of `len` items for `threads` worker threads, rounded down.
pub open spec fn effective_threshold(len: nat, threads: nat, base: nat) -> nat {
    let weight = workload_weight(len, threads);
    if weight <= pow2(HALF_FACTOR_BITS as nat) {
        base / 2
    } else if weight >= pow2(DOUBLE_FACTOR_BITS as nat) {
        2 * base
    } else {
        log2_floor(pow(weight as int, base) as nat) / (UNIT_FACTOR_BITS as nat)
    }
}

/// The effective threshold of a configuration for a batch of `len` items.
pub open spec fn threshold_for(len: nat, config: PerformanceConfig) -> nat {
    effective_threshold(len, config.thread_count as nat, config.parallel_threshold as nat)
}

/// A power of a power of two is a power of two.
proof fn lemma_pow2_raised(bits: nat, e: nat)
    ensures
        pow(pow2(bits) as int, e) == pow2(bits * e),
{
    lemma_pow2(bits);
    lemma_pow2(bits * e);
    lemma_pow_multiplies(2, bits, e);
}

/// Powers of two grow with their exponents.
proof fn lemma_pow2_increases(a: nat, b: nat)
    requires
        a <= b,
    ensures
        pow2(a) <= pow2(b),
{
    if a < b {
        lemma_pow2_strictly_increases(a, b);
    }
}

/// The effective threshold lies between half the parallel threshold,
/// rounded down, and twice the parallel threshold.
pub proof fn lemma_threshold_bounds(len: nat, threads: nat, base: nat)
    ensures
        base / 2 <= effective_threshold(len, threads, base) <= 2 * base,
{
    let weight = workload_weight(len, threads);
    if pow2(80) < weight < pow2(320) {
        let raised = pow(weight as int, base);
        lemma_pow_positive(weight as int, base);
        let bits = log2_floor(raised as nat);
        lemma_log2_floor_bounds(raised as nat);
        // 2^(80 * base) <= weight^base
        lemma_pow_base_monotonic(pow2(80), weight, base);
        lemma_pow2_raised(80, base);
        if bits < 80 * base {
            lemma_pow2_increases(bits + 1, 80 * base);
        }
        if base > 0 {
            // weight^base < 2^(320 * base)
            lemma_pow_base_strictly_monotonic(weight, pow2(320), base);
            lemma_pow2_raised(320, base);
            if bits >= 320 * base {
                lemma_pow2_increases(320 * base, bits);
            }
        } else {
            lemma_pow0(weight as int);
        }
    }
}

/// The weight of the leading binary digit of a mantissa: `2^63`.
pub const MANTISSA_ONE: u128 = 0x8000_0000_0000_0000;

/// The largest exponent `n` for which a bracket around `len ^ n` is put to
/// use: `2^47`.
pub const LARGEST_BRACKET: u128 = 0x8000_0000_0000;

/// The mantissas `lo` and `hi`, both from `2^63` up to but not including
/// `2^64`, bracket `len ^ n` at the binary exponent `s`:
/// `lo * 2^s <= len^n * 2^63 <= hi * 2^s`.
pub open spec fn brackets(len: nat, n: nat, s: nat, lo: nat, hi: nat) -> bool {
    &&& n >= 1
    &&& MANTISSA_ONE <= lo <= hi < 2 * MANTISSA_ONE
    &&& lo * pow2(s) <= pow(len as int, n) * MANTISSA_ONE
    &&& pow(len as int, n) * MANTISSA_ONE <= hi * pow2(s)
}

/// A bracketed power has as many binary digits as the bracket says.
pub proof fn lemma_bracket_digits(len: nat, n: nat, s: nat, lo: nat, hi: nat)
    requires
        brackets(len, n, s, lo, hi),
    ensures
        pow2(s) <= pow(len as int, n) < pow2(s + 1),
{
    let w = pow(len as int, n);
    let a = pow2(s) as int;
    let c = MANTISSA_ONE as int;
    lemma_pow2_unfold(s + 1);
    lemma_pow2_pos(s);
    assert(a <= w) by (nonlinear_arith)
        requires
            c <= lo,
            lo * a <= w * c,
            c > 0,
            a > 0,
    ;
    assert(w < 2 * a) by (nonlinear_arith)
        requires
            w * c <= hi * a,
            hi < 2 * c,
            c > 0,
            a > 0,
    ;
}

/// Squaring a bracketed power: mantissas that bracket the squares of `lo`
/// and `hi`, taken at `factor` times `2^63`, bracket the square of the power
/// at twice the exponent, plus one where `factor` is two.
pub proof fn lemma_bracket_squared(
    len: nat,
    n: nat,
    s: nat,
    lo: nat,
    hi: nat,
    next_lo: nat,
    next_hi: nat,
    factor: nat,
)
    requires
        brackets(len, n, s, lo, hi),
        factor == 1 || factor == 2,
        MANTISSA_ONE <= next_lo <= next_hi < 2 * MANTISSA_ONE,
        next_lo * (factor * MANTISSA_ONE) <= lo * lo,
        hi * hi <= next_hi * (factor * MANTISSA_ONE),
    ensures
        brackets(len, 2 * n, (2 * s + factor - 1) as nat, next_lo, next_hi),
{
    let w = pow(len as int, n);
    let a = pow2(s) as int;
    let c = MANTISSA_ONE as int;
    let f = factor as int;
    lemma_pow_adds(len as int, n, n);
    lemma_pow2_adds(s, s);
    lemma_pow2_unfold(2 * s + 1);
    lemma_pow2_pos(s);
    assert(pow(len as int, 2 * n) == w * w);
    assert(pow2((2 * s + factor - 1) as nat) == f * (a * a)) by {
        assert(pow2(s + s) == a * a);
        assert(s + s == 2 * s);
    }
    let lo_i = lo as int;
    let hi_i = hi as int;
    let nl = next_lo as int;
    let nh = next_hi as int;
    assert(w >= 0) by {
        if len > 0 {
            lemma_pow_positive(len as int, n);
        } else {
            lemma0_pow(n);
        }
    }
    assert((lo_i * a) * (lo_i * a) <= (w * c) * (w * c)) by (nonlinear_arith)
        requires
            0 <= lo_i * a <= w * c,
    ;
    assert((nl * (f * c)) * (a * a) <= (lo_i * lo_i) * (a * a)) by (nonlinear_arith)
        requires
            nl * (f * c) <= lo_i * lo_i,
            a >= 0,
    ;
    assert((lo_i * lo_i) * (a * a) == (lo_i * a) * (lo_i * a)) by (nonlinear_arith);
    assert((nl * (f * c)) * (a * a) == (nl * (f * (a * a))) * c) by (nonlinear_arith);
    assert((w * c) * (w * c) == ((w * w) * c) * c) by (nonlinear_arith);
    assert(nl * (f * (a * a)) <= (w * w) * c) by (nonlinear_arith)
        requires
            (nl * (f * (a * a))) * c <= ((w * w) * c) * c,
            c > 0,
    ;
    assert((w * c) * (w * c) <= (hi_i * a) * (hi_i * a)) by (nonlinear_arith)
        requires
            0 <= w * c <= hi_i * a,
    ;
    assert((hi_i * hi_i) * (a * a) <= (nh * (f * c)) * (a * a)) by (nonlinear_arith)
        requires
            hi_i * hi_i <= nh * (f * c),
            a >= 0,
    ;
    assert((hi_i * hi_i) * (a * a) == (hi_i * a) * (hi_i * a)) by (nonlinear_arith);
    assert((nh * (f * c)) * (a * a) == (nh * (f * (a * a))) * c) by (nonlinear_arith);
    assert((w * w) * c <= nh * (f * (a * a))) by (nonlinear_arith)
        requires
            ((w * w) * c) * c <= (nh * (f * (a * a))) * c,
            c > 0,
    ;
}

/// The binary digits of `len ^ n` bound those of `len ^ k`: with
/// `2^s <= len^n < 2^(s + 1)`, the logarithm of `len ^ k` lies between
/// `s * k / n` and `((s + 1) * k - 1) / n`, both rounded down.
pub proof fn lemma_digits_of_power(len: nat, n: nat, s: nat, k: nat)
    requires
        len >= 1,
        n >= 1,
        k >= 1,
        pow2(s) <= pow(len as int, n) < pow2(s + 1),
    ensures
        (s * k) / n <= log2_floor(pow(len as int, k) as nat) <= ((s + 1) * k - 1) / (n as int),
{
    let v = pow(len as int, k);
    lemma_pow_positive(len as int, k);
    lemma_pow_positive(len as int, n);
    let e = log2_floor(v as nat);
    lemma_log2_floor_bounds(v as nat);
    let w = pow(len as int, n);
    // v^n == w^k == len^(n * k)
    lemma_pow_multiplies(len as int, k, n);
    lemma_pow_multiplies(len as int, n, k);
    assert(k * n == n * k) by (nonlinear_arith);
    let both = pow(len as int, n * k);
    assert(pow(v, n) == both);
    assert(pow(w, k) == both);
    // 2^(s * k) <= w^k and w^k < 2^((s + 1) * k)
    lemma_pow_base_monotonic(pow2(s), w as nat, k);
    lemma_pow2_raised(s, k);
    lemma_pow_base_strictly_monotonic(w as nat, pow2(s + 1), k);
    lemma_pow2_raised(s + 1, k);
    // 2^(e * n) <= v^n and v^n < 2^((e + 1) * n)
    lemma_pow_base_monotonic(pow2(e), v as nat, n);
    lemma_pow2_raised(e, n);
    lemma_pow_base_strictly_monotonic(v as nat, pow2(e + 1), n);
    lemma_pow2_raised(e + 1, n);
    // so s * k < (e + 1) * n and e * n < (s + 1) * k
    if s * k >= (e + 1) * n {
        lemma_pow2_increases((e + 1) * n, s * k);
    }
    if e * n >= (s + 1) * k {
        lemma_pow2_increases((s + 1) * k, e * n);
    }
    let low = (s * k) as int;
    let high = ((s + 1) * k - 1) as int;
    let d = n as int;
    assert((low / d) * d <= low) by (nonlinear_arith)
        requires
            d > 0,
            low >= 0,
    ;
    assert(low / d < e + 1) by (nonlinear_arith)
        requires
            (low / d) * d <= low,
            low < (e + 1) * d,
            d > 0,
    ;
    assert(e * n <= high);
    lemma_div_is_ordered((e * n) as int, high, d);
    lemma_div_multiples_vanish(e as int, d);
    assert(d * e == e * n) by (nonlinear_arith)
        requires
            d == n,
    ;
}

/// Tries to compute the logarithm of `len ^ k`, rounded down and divided by
/// 160, from brackets around `len`, `len^2`, `len^4` and so on, each got
/// from the one before by squaring two 64-bit mantissas. The quotient is
/// found as soon as a bracket pins it down; nothing is returned where the
/// mantissas cannot tell the digits apart or the exponent of the bracket
/// has reached `LARGEST_BRACKET`. The work does not depend on `k`.
fn bracketed_quotient(len: u64, k: u128) -> (r: Option<u128>)
    requires
        len >= 2,
        1 <= k <= 320 * 0xffff_ffff_ffff_ffff,
    ensures
        r matches Some(q) ==> q as nat == log2_floor(pow(len as int, k as nat) as nat) / 160,
{
    let mut m: u128 = len as u128;
    let mut s: u128 = 63;
    proof {
        lemma2_to64();
        lemma2_to64_rest();
    }
    while m < MANTISSA_ONE
        invariant
            len >= 2,
            s <= 63,
            1 <= m < 2 * MANTISSA_ONE,
            m * pow2(s as nat) == len * MANTISSA_ONE,
            pow2(63) == MANTISSA_ONE,
        decreases s,
    {
        proof {
            if s == 0 {
                assert(pow2(0) == 1) by {
                    lemma2_to64();
                }
            } else {
                lemma_pow2_unfold(s as nat);
                let half = pow2((s - 1) as nat) as int;
                assert((2 * m) * half == m * (2 * half)) by (nonlinear_arith);
            }
        }
        m = 2 * m;
        s = s - 1;
    }
    let mut lo: u128 = m;
    let mut hi: u128 = m;
    let mut n: u128 = 1;
    proof {
        lemma_pow1(len as int);
    }
    loop
        invariant
            len >= 2,
            1 <= k <= 320 * 0xffff_ffff_ffff_ffff,
            1 <= n <= LARGEST_BRACKET,
            s < 64 * n,
            brackets(len as nat, n as nat, s as nat, lo as nat, hi as nat),
        decreases LARGEST_BRACKET - n,
    {
        assert((s + 1) * k <= 0x20_0000_0000_0000 * (320 * 0xffff_ffff_ffff_ffff)) by (nonlinear_arith)
            requires
                s + 1 <= 0x20_0000_0000_0000,
                k <= 320 * 0xffff_ffff_ffff_ffff,
        ;
        assert(s * k <= (s + 1) * k) by (nonlinear_arith)
            requires
                k >= 0,
                s >= 0,
        ;
        assert((s + 1) * k >= 1) by (nonlinear_arith)
            requires
                k >= 1,
                s >= 0,
        ;
        let low = (s * k) / n;
        let high = ((s + 1) * k - 1) / n;
        proof {
            lemma_bracket_digits(len as nat, n as nat, s as nat, lo as nat, hi as nat);
            lemma_digits_of_power(len as nat, n as nat, s as nat, k as nat);
        }
        if low / 160 == high / 160 {
            return Some(low / 160);
        }
        if n > LARGEST_BRACKET / 2 {
            return None;
        }
        assert(lo * lo <= 0xffff_ffff_ffff_ffff * 0xffff_ffff_ffff_ffff && hi * hi
            <= 0xffff_ffff_ffff_ffff * 0xffff_ffff_ffff_ffff && lo * lo <= hi * hi && lo * lo
            >= MANTISSA_ONE * MANTISSA_ONE) by (nonlinear_arith)
            requires
                MANTISSA_ONE <= lo <= hi <= 0xffff_ffff_ffff_ffff,
        ;
        let lo_squared: u128 = lo * lo;
        let hi_squared: u128 = hi * hi;
        if lo_squared >= 2 * MANTISSA_ONE * MANTISSA_ONE {
            let next_lo = lo_squared / (2 * MANTISSA_ONE);
            let next_hi = (hi_squared + (2 * MANTISSA_ONE - 1)) / (2 * MANTISSA_ONE);
            proof {
                lemma_bracket_squared(
                    len as nat,
                    n as nat,
                    s as nat,
                    lo as nat,
                    hi as nat,
                    next_lo as nat,
                    next_hi as nat,
                    2,
                );
            }
            lo = next_lo;
            hi = next_hi;
            s = 2 * s + 1;
        } else if hi_squared < 2 * MANTISSA_ONE * MANTISSA_ONE {
            let next_lo = lo_squared / MANTISSA_ONE;
            let next_hi = (hi_squared + (MANTISSA_ONE - 1)) / MANTISSA_ONE;
            if next_hi >= 2 * MANTISSA_ONE {
                return None;
            }
            proof {
                assert(next_lo * MANTISSA_ONE <= lo_squared);
                assert(hi_squared <= next_hi * MANTISSA_ONE);
                assert(1 * MANTISSA_ONE == MANTISSA_ONE);
                assert(next_lo * (1 * MANTISSA_ONE) <= lo * lo);
                assert(hi * hi <= next_hi * (1 * MANTISSA_ONE));
                lemma_bracket_squared(
                    len as nat,
                    n as nat,
                    s as nat,
                    lo as nat,
                    hi as nat,
                    next_lo as nat,
                    next_hi as nat,
                    1,
                );
            }
            lo = next_lo;
            hi = next_hi;
            s = 2 * s;
        } else {
            return None;
        }
        n = 2 * n;
    }
}

/// The weight `len ^ (3 * threads)` on limbs, where it stays below `2^320`.
fn bounded_weight(len: u64, threads: usize) -> (r: Option<Vec<u64>>)
    requires
        len >= 2,
    ensures
        match r {
            Some(weight) => {
                &&& limbs_value(weight@) == workload_weight(len as nat, threads as nat)
                &&& limbs_value(weight@) < pow2(320)
                &&& 0 < weight.len() <= 5
                &&& 3 * threads < 320
            },
            None => workload_weight(len as nat, threads as nat) >= pow2(320),
        },
{
    proof {
        lemma_radix_pow_is_pow2(5);
    }
    if threads >= 107 {
        proof {
            // len^(3 * threads) >= 2^(3 * threads) >= 2^320
            lemma_pow_base_monotonic(2, len as nat, 3 * threads as nat);
            lemma_pow2(3 * threads as nat);
            lemma_pow2_increases(320, 3 * threads as nat);
        }
        return None;
    }
    let exp: u32 = 3 * (threads as u32);
    let mut acc: Vec<u64> = Vec::new();
    acc.push(1);
    proof {
        lemma_limbs_value_push(Seq::<u64>::empty(), 1);
        assert(acc@ =~= Seq::<u64>::empty().push(1));
        lemma_pow0(len as int);
    }
    let mut k: u32 = 0;
    while k < exp
        invariant
            k <= exp,
            exp == 3 * threads,
            len >= 2,
            limbs_value(acc@) == pow(len as int, k as nat),
            0 < acc.len() <= 5,
            radix_pow(5) == pow2(320),
        decreases exp - k,
    {
        proof {
            lemma_pow_adds(len as int, k as nat, 1);
            lemma_pow1(len as int);
            lemma_pow_positive(len as int, k as nat);
        }
        let next = limbs_trim(limbs_mul(&acc, len));
        k = k + 1;
        proof {
            lemma_pow_positive(len as int, k as nat);
            assert(next.len() > 0) by {
                if next.len() == 0 {
                    assert(limbs_value(next@) == 0);
                }
            }
        }
        if next.len() > 5 {
            proof {
                lemma_trimmed_value_bound(next@);
                lemma_radix_pow_is_pow2((next.len() - 1) as nat);
                lemma_pow2_increases(320, 64 * (next.len() - 1) as nat);
                lemma_pow_increases(len as nat, k as nat, exp as nat);
            }
            return None;
        }
        acc = next;
    }
    proof {
        lemma_limbs_value_bound(acc@);
        lemma_radix_pow_is_pow2(acc.len() as nat);
        lemma_pow2_increases(64 * acc.len() as nat, 320);
    }
    Some(acc)
}

/// Whether the number that `weight` stands for exceeds `2^80`.
fn exceeds_half_factor(weight: Vec<u64>) -> (r: bool)
    requires
        weight.len() <= 5,
    ensures
        r == (limbs_value(weight@) > pow2(80)),
{
    let mut bound: Vec<u64> = Vec::new();
    bound.push(0);
    bound.push(0x1_0000);
    proof {
        let none = Seq::<u64>::empty();
        lemma_limbs_value_push(none, 0);
        lemma_limbs_value_push(none.push(0), 0x1_0000);
        assert(bound@ =~= none.push(0).push(0x1_0000));
        assert(radix_pow(1) == radix_pow(0) * 0x1_0000_0000_0000_0000);
        lemma2_to64();
        lemma_pow2_adds(64, 16);
    }
    let bound = limbs_pad(bound, 5);
    let weight = limbs_pad(weight, 5);
    limbs_greater(&weight, &bound)
}

/// Computes the effective threshold of a configuration for a batch of
/// `len` items.
///
/// Where the workload factor lies strictly between one half and two, the
/// threshold is read off brackets around small powers of `len`, at a cost
/// that does not depend on the parallel threshold. Only where 64-bit
/// mantissas cannot tell the digits apart is the full power evaluated on
/// limbs.
pub fn tensor_analyze_workload(len: usize, config: &PerformanceConfig) -> (r: usize)
    ensures
        r as nat == saturate(threshold_for(len as nat, *config)),
{
    let base = config.parallel_threshold;
    let threads = config.thread_count;
    proof {
        lemma_pow2_pos(80);
        lemma_pow2_strictly_increases(80, 320);
    }
    if len <= 1 {
        proof {
            lemma1_pow(3 * threads as nat);
        }
        return base / 2;
    }
    match bounded_weight(len as u64, threads) {
        None => saturate_to_usize(2 * (base as u128)),
        Some(weight) => {
            if !exceeds_half_factor(weight) {
                base / 2
            } else {
                assert(3 * (threads as u128) * (base as u128) <= 320 * 0xffff_ffff_ffff_ffff)
                    by (nonlinear_arith)
                    requires
                        3 * threads < 320,
                        base <= 0xffff_ffff_ffff_ffff,
                ;
                let exp: u128 = 3 * (threads as u128) * (base as u128);
                proof {
                    lemma_pow_multiplies(len as int, 3 * threads as nat, base as nat);
                    lemma_pow_positive(len as int, 3 * threads as nat);
                }
                if exp >= 1 {
                    match bracketed_quotient(len as u64, exp) {
                        Some(quotient) => {
                            return saturate_to_usize(quotient);
                        },
                        None => {},
                    }
                }
                let raised = limbs_pow(len as u64, exp);
                proof {
                    lemma_pow_positive(len as int, exp as nat);
                    assert(raised.len() > 0) by {
                        if raised.len() == 0 {
                            assert(limbs_value(raised@) == 0);
                        }
                    }
                }
                let bits = limbs_log2(&raised);
                saturate_to_usize(bits / (UNIT_FACTOR_BITS as u128))
            }
        },
    }
}

} // verus!
