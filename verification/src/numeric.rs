//! Integer arithmetic shared by the tuning rules: saturation to machine
//! words, proportional scaling with rational factors, integer square roots
//! and binary logarithms.

use vstd::prelude::*;
use vstd::arithmetic::power::{lemma_pow1, pow};
use vstd::arithmetic::power2::{lemma2_to64, lemma_pow2_unfold, pow2};

verus! {

/// `v`, capped at the largest `usize`.
pub open spec fn saturate(v: nat) -> nat {
    if v > usize::MAX as nat {
        usize::MAX as nat
    } else {
        v
    }
}

/// `v`, capped at the largest `u64`.
pub open spec fn saturate_u64(v: nat) -> nat {
    if v > u64::MAX as nat {
        u64::MAX as nat
    } else {
        v
    }
}

/// `v`, raised to `floor` where it is below it.
pub open spec fn at_least(floor: nat, v: nat) -> nat {
    if v < floor {
        floor
    } else {
        v
    }
}

/// A non-negative fraction of two machine integers. It stands for
/// `numerator / denominator`; a well-formed ratio has a positive
/// denominator.
#[derive(Clone, Copy, Debug, PartialEq, Eq)]
pub struct Ratio {
    pub numerator: u64,
    pub denominator: u64,
}

impl Ratio {
    /// The denominator is positive.
    pub open spec fn wf(self) -> bool {
        self.denominator > 0
    }

    /// This fraction is strictly smaller than `other`, by cross
    /// multiplication.
    pub open spec fn below(self, other: Ratio) -> bool {
        self.numerator * other.denominator < other.numerator * self.denominator
    }

    /// This fraction is zero.
    pub open spec fn is_zero(self) -> bool {
        self.numerator == 0
    }

    /// Whether this fraction is strictly smaller than `other`.
    pub fn is_below(&self, other: &Ratio) -> (r: bool)
        ensures
            r == self.below(*other),
    {
        assert(self.numerator as u128 * other.denominator as u128 <= 0xffff_ffff_ffff_ffff
            * 0xffff_ffff_ffff_ffff) by (nonlinear_arith)
            requires
                self.numerator as u128 <= 0xffff_ffff_ffff_ffff,
                other.denominator as u128 <= 0xffff_ffff_ffff_ffff,
        ;
        assert(other.numerator as u128 * self.denominator as u128 <= 0xffff_ffff_ffff_ffff
            * 0xffff_ffff_ffff_ffff) by (nonlinear_arith)
            requires
                other.numerator as u128 <= 0xffff_ffff_ffff_ffff,
                self.denominator as u128 <= 0xffff_ffff_ffff_ffff,
        ;
        (self.numerator as u128) * (other.denominator as u128) < (other.numerator as u128) * (
        self.denominator as u128)
    }

    /// Whether this fraction is above zero.
    pub fn is_positive(&self) -> (r: bool)
        ensures
            r == !self.is_zero(),
    {
        self.numerator > 0
    }
}

/// `x` multiplied by the rational factor `num / den`, rounded down.
pub open spec fn scaled(x: nat, num: nat, den: nat) -> nat
    recommends
        den > 0,
{
    (x * num) / den
}

/// `r` is the integer square root of `n`: the largest number whose square
/// does not exceed `n`.
pub open spec fn is_floor_sqrt(n: nat, r: nat) -> bool {
    r * r <= n && n < (r + 1) * (r + 1)
}

/// The integer square root of `n`.
pub open spec fn floor_sqrt(n: nat) -> nat {
    choose|r: nat| is_floor_sqrt(n, r)
}

/// Every number has an integer square root.
pub proof fn lemma_floor_sqrt_exists(n: nat)
    ensures
        exists|r: nat| is_floor_sqrt(n, r),
    decreases n,
{
    if n == 0 {
        assert(is_floor_sqrt(0, 0)) by (nonlinear_arith);
    } else {
        let m = (n - 1) as nat;
        lemma_floor_sqrt_exists(m);
        let r = choose|r: nat| is_floor_sqrt(m, r);
        if (r + 1) * (r + 1) <= n {
            assert((r + 2) * (r + 2) > (r + 1) * (r + 1)) by (nonlinear_arith);
            assert(is_floor_sqrt(n, r + 1));
        } else {
            assert(is_floor_sqrt(n, r));
        }
    }
}

/// The integer square root is unique.
pub proof fn lemma_floor_sqrt_unique(n: nat, a: nat, b: nat)
    requires
        is_floor_sqrt(n, a),
        is_floor_sqrt(n, b),
    ensures
        a == b,
{
    if a < b {
        assert((a + 1) * (a + 1) <= b * b) by (nonlinear_arith)
            requires
                a + 1 <= b,
        ;
    } else if b < a {
        assert((b + 1) * (b + 1) <= a * a) by (nonlinear_arith)
            requires
                b + 1 <= a,
        ;
    }
}

/// `floor_sqrt(n)` is characterised by `is_floor_sqrt`.
pub proof fn lemma_floor_sqrt_is(n: nat, r: nat)
    requires
        is_floor_sqrt(n, r),
    ensures
        floor_sqrt(n) == r,
{
    lemma_floor_sqrt_exists(n);
    lemma_floor_sqrt_unique(n, r, floor_sqrt(n));
}

/// Caps a 128-bit quantity at the largest `usize`.
pub fn saturate_to_usize(v: u128) -> (r: usize)
    ensures
        r as nat == saturate(v as nat),
{
    if v > usize::MAX as u128 {
        usize::MAX
    } else {
        v as usize
    }
}

/// Caps a 128-bit quantity at the largest `u64`.
pub fn saturate_to_u64(v: u128) -> (r: u64)
    ensures
        r as nat == saturate_u64(v as nat),
{
    if v > u64::MAX as u128 {
        u64::MAX
    } else {
        v as u64
    }
}

/// Multiplies `x` by `num / den`, rounding down and capping the result at
/// the largest `usize`.
pub fn scale(x: usize, num: u32, den: u32) -> (r: usize)
    requires
        den > 0,
    ensures
        r as nat == saturate(scaled(x as nat, num as nat, den as nat)),
{
    assert(x as u128 * num as u128 <= 0xffff_ffff_ffff_ffff * 0xffff_ffff) by (nonlinear_arith)
        requires
            x as u128 <= 0xffff_ffff_ffff_ffff,
            num as u128 <= 0xffff_ffff,
    ;
    let product: u128 = x as u128 * num as u128;
    saturate_to_usize(product / den as u128)
}

/// Multiplies `x` by `num / den`, rounding down and capping the result at
/// the largest `u64`.
pub fn scale_u64(x: u64, num: u32, den: u32) -> (r: u64)
    requires
        den > 0,
    ensures
        r as nat == saturate_u64(scaled(x as nat, num as nat, den as nat)),
{
    assert(x as u128 * num as u128 <= 0xffff_ffff_ffff_ffff * 0xffff_ffff) by (nonlinear_arith)
        requires
            x as u128 <= 0xffff_ffff_ffff_ffff,
            num as u128 <= 0xffff_ffff,
    ;
    let product: u128 = x as u128 * num as u128;
    saturate_to_u64(product / den as u128)
}

/// The integer square root of a 128-bit number, by bisection.
pub fn isqrt(n: u128) -> (r: u64)
    ensures
        is_floor_sqrt(n as nat, r as nat),
        r as nat == floor_sqrt(n as nat),
{
    let mut lo: u128 = 0;
    let mut hi: u128 = 0x1_0000_0000_0000_0000;
    assert(n < hi * hi) by (nonlinear_arith)
        requires
            hi == 0x1_0000_0000_0000_0000,
            n <= u128::MAX,
    ;
    while hi - lo > 1
        invariant
            lo < hi <= 0x1_0000_0000_0000_0000,
            lo * lo <= n,
            n < hi * hi,
        decreases hi - lo,
    {
        let mid: u128 = lo + (hi - lo) / 2;
        assert(mid * mid <= 0xffff_ffff_ffff_ffff * 0xffff_ffff_ffff_ffff) by (nonlinear_arith)
            requires
                mid <= 0xffff_ffff_ffff_ffff,
        ;
        if mid * mid <= n {
            lo = mid;
        } else {
            hi = mid;
        }
    }
    proof {
        assert(hi == lo + 1);
        assert(is_floor_sqrt(n as nat, lo as nat));
        lemma_floor_sqrt_is(n as nat, lo as nat);
    }
    lo as u64
}

/// The binary logarithm of `n`, rounded down; zero for `n` below two.
pub open spec fn log2_floor(n: nat) -> nat
    decreases n,
{
    if n < 2 {
        0
    } else {
        1 + log2_floor(n / 2)
    }
}

/// A number from one power of two up to the next has the smaller exponent
/// as its logarithm.
pub proof fn lemma_log2_floor_is(n: nat, k: nat)
    requires
        pow2(k) <= n < pow2(k + 1),
    ensures
        log2_floor(n) == k,
    decreases k,
{
    lemma2_to64();
    if k > 0 {
        lemma_pow2_unfold(k);
        lemma_pow2_unfold(k + 1);
        lemma_log2_floor_is(n / 2, (k - 1) as nat);
    }
}

/// A positive number lies between the power of two of its logarithm and
/// the next power of two.
pub proof fn lemma_log2_floor_bounds(n: nat)
    requires
        n >= 1,
    ensures
        pow2(log2_floor(n)) <= n < pow2(log2_floor(n) + 1),
    decreases n,
{
    lemma2_to64();
    if n >= 2 {
        lemma_log2_floor_bounds(n / 2);
        let k = log2_floor(n / 2);
        lemma_pow2_unfold(k + 1);
        lemma_pow2_unfold(k + 2);
    }
}

/// Raising to a fixed power preserves the order of the bases.
pub proof fn lemma_pow_base_monotonic(a: nat, b: nat, e: nat)
    requires
        a <= b,
    ensures
        pow(a as int, e) <= pow(b as int, e),
        0 <= pow(a as int, e),
    decreases e,
{
    reveal(pow);
    if e > 0 {
        lemma_pow_base_monotonic(a, b, (e - 1) as nat);
        let x = pow(a as int, (e - 1) as nat);
        let y = pow(b as int, (e - 1) as nat);
        assert(a * x <= b * y && 0 <= a * x) by (nonlinear_arith)
            requires
                0 <= a <= b,
                0 <= x <= y,
        ;
    }
}

/// Raising to a fixed positive power preserves the strict order of the
/// bases.
pub proof fn lemma_pow_base_strictly_monotonic(a: nat, b: nat, e: nat)
    requires
        a < b,
        e > 0,
    ensures
        pow(a as int, e) < pow(b as int, e),
    decreases e,
{
    reveal(pow);
    if e == 1 {
        lemma_pow1(a as int);
        lemma_pow1(b as int);
    } else {
        lemma_pow_base_strictly_monotonic(a, b, (e - 1) as nat);
        lemma_pow_base_monotonic(a, b, (e - 1) as nat);
        let x = pow(a as int, (e - 1) as nat);
        let y = pow(b as int, (e - 1) as nat);
        assert(a * x < b * y) by (nonlinear_arith)
            requires
                0 <= a < b,
                0 <= x < y,
        ;
    }
}

/// Computes the binary logarithm of a positive word, rounded down.
pub fn bit_floor(d: u64) -> (b: u32)
    requires
        d >= 1,
    ensures
        b as nat == log2_floor(d as nat),
        b < 64,
{
    let mut v: u64 = d;
    let mut b: u32 = 0;
    proof {
        lemma2_to64();
    }
    while v > 1
        invariant
            v >= 1,
            b <= 63,
            (v as nat) < pow2((64 - b) as nat),
            log2_floor(d as nat) == b as nat + log2_floor(v as nat),
        decreases v,
    {
        proof {
            lemma2_to64();
            lemma_pow2_unfold((64 - b) as nat);
        }
        v = v / 2;
        b = b + 1;
    }
    b
}

} // verus!
