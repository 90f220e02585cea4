//! The capacity rule of the result cache.
//!
//! A requested capacity is resolved by scoring four candidate sizes with
//! `weight / log2(max(size, 2))` and keeping the best one. The logarithm is
//! increasing, so for weights `wa`, `wb` and clamped sizes `a`, `b`
//!
//! ```text
//! wa / log2(a) > wb / log2(b)   <=>   wa * log2(b) > wb * log2(a)
//!                               <=>   b ^ wa > a ^ wb
//! ```
//!
//! With the weights scaled to integers the comparison is one between
//! integer powers. They exceed every machine word, so the executable code
//! evaluates them on little-endian sequences of 64-bit limbs.

use vstd::prelude::*;
use vstd::arithmetic::power::{pow, lemma_pow_increases};
use crate::limbs::{limbs_greater, limbs_pad, limbs_pow};
use crate::numeric::{floor_sqrt, is_floor_sqrt, isqrt, lemma_pow_base_monotonic, scaled};

verus! {

/// The weights of the four candidates, in tenths: the request itself, three
/// quarters of it, five quarters of it, and sixteen times its square root.
pub const WEIGHT_REQUEST: u32 = 10;

pub const WEIGHT_THREE_QUARTERS: u32 = 8;

pub const WEIGHT_FIVE_QUARTERS: u32 = 7;

pub const WEIGHT_ROOT: u32 = 6;

/// A candidate capacity together with its weight in tenths.
pub struct Candidate {
    pub size: nat,
    pub weight: nat,
}

/// The size that enters the logarithm: never below 2.
pub open spec fn clamped(size: nat) -> nat {
    if size < 2 {
        2
    } else {
        size
    }
}

/// The score of `a` is strictly higher than the score of `b`.
pub open spec fn scores_higher(a: Candidate, b: Candidate) -> bool {
    pow(clamped(b.size) as int, a.weight) > pow(clamped(a.size) as int, b.weight)
}

/// The better of the best candidate so far and the next one: the next one
/// only takes over with a strictly higher score, so the first seen wins a
/// tie.
pub open spec fn better_of(best: Candidate, next: Candidate) -> Candidate {
    if scores_higher(next, best) {
        next
    } else {
        best
    }
}

/// The four candidates for a request, in the order in which they compete.
pub open spec fn candidates(request: nat) -> Seq<Candidate> {
    seq![
        Candidate { size: request, weight: WEIGHT_REQUEST as nat },
        Candidate { size: scaled(request, 3, 4), weight: WEIGHT_THREE_QUARTERS as nat },
        Candidate { size: scaled(request, 5, 4), weight: WEIGHT_FIVE_QUARTERS as nat },
        Candidate { size: 16 * floor_sqrt(request), weight: WEIGHT_ROOT as nat },
    ]
}

/// The capacity that a cache created for `request` entries works with.
pub open spec fn effective_capacity(request: nat) -> nat {
    let c = candidates(request);
    better_of(better_of(better_of(c[0], c[1]), c[2]), c[3]).size
}


/// Whether `a ^ p` exceeds `b ^ q`.
fn power_exceeds(a: u64, p: u32, b: u64, q: u32) -> (r: bool)
    ensures
        r == (pow(a as int, p as nat) > pow(b as int, q as nat)),
{
    let left = limbs_pow(a, p as u128);
    let right = limbs_pow(b, q as u128);
    let len: usize = if left.len() > right.len() {
        left.len()
    } else {
        right.len()
    };
    let left = limbs_pad(left, len);
    let right = limbs_pad(right, len);
    limbs_greater(&left, &right)
}

/// An executable candidate: a size and its weight in tenths.
#[derive(Clone, Copy, Debug)]
pub struct SizedCandidate {
    pub size: u128,
    pub weight: u32,
}

impl SizedCandidate {
    /// The candidate as a mathematical value.
    pub open spec fn view(self) -> Candidate {
        Candidate { size: self.size as nat, weight: self.weight as nat }
    }
}

/// Whether candidate `a` scores strictly higher than candidate `b`.
pub fn scores_above(a: SizedCandidate, b: SizedCandidate) -> (r: bool)
    requires
        a.size <= u64::MAX,
        b.size <= u64::MAX,
    ensures
        r == scores_higher(a.view(), b.view()),
{
    let a_size: u64 = if a.size < 2 {
        2
    } else {
        a.size as u64
    };
    let b_size: u64 = if b.size < 2 {
        2
    } else {
        b.size as u64
    };
    power_exceeds(b_size, a.weight, a_size, b.weight)
}

/// A candidate that is no smaller and weighs no more than another one
/// never scores strictly higher.
pub proof fn lemma_larger_and_lighter_never_wins(next: Candidate, best: Candidate)
    requires
        next.size >= best.size,
        next.weight <= best.weight,
    ensures
        !scores_higher(next, best),
{
    let n = clamped(next.size);
    let b = clamped(best.size);
    // b ^ next.weight <= b ^ best.weight <= n ^ best.weight
    lemma_pow_increases(b, next.weight, best.weight);
    lemma_pow_base_monotonic(b, n, best.weight);
}

/// Resolves a requested capacity to the capacity that the cache works
/// with: the best-scoring of the four candidates.
pub fn resolve_capacity(request: usize) -> (r: usize)
    ensures
        r as nat == effective_capacity(request as nat),
{
    let root = isqrt(request as u128);
    assert(request as u128 * 5 <= 0xffff_ffff_ffff_ffff * 5);
    let first = SizedCandidate { size: request as u128, weight: WEIGHT_REQUEST };
    let second = SizedCandidate { size: request as u128 * 3 / 4, weight: WEIGHT_THREE_QUARTERS };
    let third = SizedCandidate { size: request as u128 * 5 / 4, weight: WEIGHT_FIVE_QUARTERS };
    proof {
        lemma_root_candidate_fits(request as nat, root as nat);
    }
    let fourth = SizedCandidate { size: 16 * (root as u128), weight: WEIGHT_ROOT };
    let ghost c = candidates(request as nat);
    assert(c[0] == first.view() && c[1] == second.view() && c[2] == third.view() && c[3]
        == fourth.view());
    let mut best = first;
    if scores_above(second, best) {
        best = second;
    }
    proof {
        lemma_larger_and_lighter_never_wins(third.view(), best.view());
    }
    if scores_above(fourth, best) {
        best = fourth;
    }
    best.size as usize
}

/// Sixteen times the integer square root of a `usize` fits a `usize`.
pub proof fn lemma_root_candidate_fits(request: nat, root: nat)
    requires
        request <= usize::MAX,
        is_floor_sqrt(request, root),
    ensures
        16 * root <= usize::MAX,
        16 * root <= u64::MAX,
{
    if usize::MAX == 0xffff_ffff {
        if root >= 0x1_0000 {
            assert(root * root >= 0x1_0000 * 0x1_0000) by (nonlinear_arith)
                requires
                    root >= 0x1_0000,
            ;
        }
    } else {
        if root >= 0x1_0000_0000 {
            assert(root * root >= 0x1_0000_0000 * 0x1_0000_0000) by (nonlinear_arith)
                requires
                    root >= 0x1_0000_0000,
            ;
        }
    }
}

} // verus!
