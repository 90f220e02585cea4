//! The dispatch configuration and the rules that tune it.

use vstd::prelude::*;
use crate::numeric::{at_least, saturate, saturate_u64, scale, scale_u64, scaled};

verus! {

/// Fitness assigned to the unscaled baseline when tuning picks a variant.
pub const BASELINE_FITNESS: u32 = 100;

/// Fitness assigned to the variant scaled down by a fifth.
pub const SHRUNK_FITNESS: u32 = 90;

/// Fitness assigned to the variant scaled up by a fifth.
pub const GROWN_FITNESS: u32 = 85;

/// Smallest batch size that any tuning step leaves behind.
pub const MIN_BATCH_SIZE: usize = 10;

/// Smallest parallel threshold that scaling a configuration leaves behind.
pub const MIN_SCALED_THRESHOLD: usize = 5;

/// Parameters that steer how batches of work are dispatched.
#[derive(Clone, Copy, Debug, PartialEq, Eq)]
pub struct PerformanceConfig {
    /// Number of worker threads for parallel processing.
    pub thread_count: usize,
    /// Target size of the result cache.
    pub cache_size: usize,
    /// Number of items per batch in chunked processing.
    pub batch_size: usize,
    /// Time allowed for one operation, in milliseconds.
    pub timeout_ms: u64,
    /// Item count above which work is considered for parallel execution.
    pub parallel_threshold: usize,
}

impl PerformanceConfig {
    /// All five parameters are positive.
    pub open spec fn is_positive(self) -> bool {
        &&& self.thread_count > 0
        &&& self.cache_size > 0
        &&& self.batch_size > 0
        &&& self.timeout_ms > 0
        &&& self.parallel_threshold > 0
    }

    /// The configuration derived from a core count alone: one thread per
    /// core, 200 cache slots and 10 threshold items per core, and a batch
    /// size of 200 on machines with more than four cores, 50 otherwise.
    /// Products are capped at the largest `usize`.
    pub open spec fn baseline(cores: nat) -> PerformanceConfig {
        PerformanceConfig {
            thread_count: saturate(cores) as usize,
            cache_size: saturate(cores * 200) as usize,
            batch_size: if cores > 4 {
                200
            } else {
                50
            },
            timeout_ms: 10000,
            parallel_threshold: saturate(cores * 10) as usize,
        }
    }

    /// This configuration with every parameter multiplied by
    /// `percent / 100` and rounded down, keeping at least one thread, a
    /// batch size of at least 10 and a threshold of at least 5.
    pub open spec fn scaled_by(self, percent: nat) -> PerformanceConfig {
        PerformanceConfig {
            thread_count: at_least(1, saturate(scaled(self.thread_count as nat, percent, 100))) as usize,
            cache_size: saturate(scaled(self.cache_size as nat, percent, 100)) as usize,
            batch_size: at_least(
                MIN_BATCH_SIZE as nat,
                saturate(scaled(self.batch_size as nat, percent, 100)),
            ) as usize,
            timeout_ms: saturate_u64(scaled(self.timeout_ms as nat, percent, 100)) as u64,
            parallel_threshold: at_least(
                MIN_SCALED_THRESHOLD as nat,
                saturate(scaled(self.parallel_threshold as nat, percent, 100)),
            ) as usize,
        }
    }

    /// The parallel threshold after observing an average duration of
    /// `avg_millis` over `item_count` items: four fifths of the old one when
    /// the work was quick (under 10 ms) and exceeded the threshold, six
    /// fifths when it was slow (over 100 ms), unchanged otherwise. A scaled
    /// threshold is rounded down and never falls below one.
    pub open spec fn adjusted_threshold(self, avg_millis: nat, item_count: nat) -> nat {
        if avg_millis < 10 && item_count > self.parallel_threshold {
            at_least(1, saturate(scaled(self.parallel_threshold as nat, 4, 5)))
        } else if avg_millis > 100 {
            at_least(1, saturate(scaled(self.parallel_threshold as nat, 6, 5)))
        } else {
            self.parallel_threshold as nat
        }
    }

    /// The batch size after observing an average duration of `avg_millis`:
    /// doubled up to 5 ms, unchanged up to 50 ms, seven tenths beyond, and
    /// never below 10.
    pub open spec fn adjusted_batch_size(self, avg_millis: nat) -> nat {
        at_least(
            MIN_BATCH_SIZE as nat,
            if avg_millis <= 5 {
                saturate(scaled(self.batch_size as nat, 2, 1))
            } else if avg_millis <= 50 {
                self.batch_size as nat
            } else {
                saturate(scaled(self.batch_size as nat, 7, 10))
            },
        )
    }

    /// This configuration after one workload observation.
    pub open spec fn adjusted(self, avg_millis: nat, item_count: nat) -> PerformanceConfig {
        PerformanceConfig {
            parallel_threshold: self.adjusted_threshold(avg_millis, item_count) as usize,
            batch_size: self.adjusted_batch_size(avg_millis) as usize,
            ..self
        }
    }

    /// Builds the initial configuration for a machine with `cores` cores.
    ///
    /// The baseline competes with its copies scaled by 80% and 120% under
    /// fixed fitness scores; the baseline carries the highest score, so the
    /// outcome is a function of `cores` alone.
    pub fn tuned_for(cores: usize) -> (r: Self)
        ensures
            r == Self::baseline(cores as nat),
    {
        let base = PerformanceConfig {
            thread_count: cores,
            cache_size: scale(cores, 200, 1),
            batch_size: if cores > 4 {
                200
            } else {
                50
            },
            timeout_ms: 10000,
            parallel_threshold: scale(cores, 10, 1),
        };
        Self::pso_optimize(base)
    }

    /// Builds the initial configuration from the number of cores detected
    /// on this machine.
    pub fn auto_tune() -> (r: Self)
        ensures
            r.thread_count >= 1,
            r == Self::baseline(r.thread_count as nat),
            r.is_positive(),
    {
        Self::tuned_for(detected_cores())
    }

    /// Picks, among `base` and its copies scaled by 80% and 120%, the
    /// variant with the highest fixed fitness score. The scores are
    /// constants, so the choice is always `base`.
    pub fn pso_optimize(base: Self) -> (r: Self)
        ensures
            r == base,
    {
        let shrunk = Self::mutate_config(&base, 80);
        let grown = Self::mutate_config(&base, 120);
        let mut best = base;
        let mut best_fitness: u32 = BASELINE_FITNESS;
        if SHRUNK_FITNESS > best_fitness {
            best = shrunk;
            best_fitness = SHRUNK_FITNESS;
        }
        if GROWN_FITNESS > best_fitness {
            best = grown;
        }
        best
    }

    /// Scales every parameter of `base` by `percent / 100`.
    pub fn mutate_config(base: &Self, percent: u32) -> (r: Self)
        ensures
            r == base.scaled_by(percent as nat),
            r.thread_count >= 1,
            r.batch_size >= MIN_BATCH_SIZE,
            r.parallel_threshold >= MIN_SCALED_THRESHOLD,
    {
        let thread_count = scale(base.thread_count, percent, 100);
        let batch_size = scale(base.batch_size, percent, 100);
        let parallel_threshold = scale(base.parallel_threshold, percent, 100);
        PerformanceConfig {
            thread_count: if thread_count < 1 {
                1
            } else {
                thread_count
            },
            cache_size: scale(base.cache_size, percent, 100),
            batch_size: if batch_size < MIN_BATCH_SIZE {
                MIN_BATCH_SIZE
            } else {
                batch_size
            },
            timeout_ms: scale_u64(base.timeout_ms, percent, 100),
            parallel_threshold: if parallel_threshold < MIN_SCALED_THRESHOLD {
                MIN_SCALED_THRESHOLD
            } else {
                parallel_threshold
            },
        }
    }

    /// `v`, or one where `v` is zero.
    fn at_least_one(v: usize) -> (r: usize)
        ensures
            r as nat == at_least(1, v as nat),
    {
        if v < 1 {
            1
        } else {
            v
        }
    }

    /// Adapts the threshold and the batch size to the workload just seen:
    /// `avg_millis` is the average duration of one operation in whole
    /// milliseconds, `item_count` the number of items processed.
    pub fn adjust_for_workload(&mut self, avg_millis: u128, item_count: usize)
        ensures
            *final(self) == old(self).adjusted(avg_millis as nat, item_count as nat),
            final(self).batch_size >= MIN_BATCH_SIZE,
            old(self).is_positive() ==> final(self).is_positive(),
    {
        if avg_millis < 10 && item_count > self.parallel_threshold {
            self.parallel_threshold = Self::at_least_one(scale(self.parallel_threshold, 4, 5));
        } else if avg_millis > 100 {
            self.parallel_threshold = Self::at_least_one(scale(self.parallel_threshold, 6, 5));
        }
        let batch_size = if avg_millis <= 5 {
            scale(self.batch_size, 2, 1)
        } else if avg_millis <= 50 {
            self.batch_size
        } else {
            scale(self.batch_size, 7, 10)
        };
        self.batch_size = if batch_size < MIN_BATCH_SIZE {
            MIN_BATCH_SIZE
        } else {
            batch_size
        };
    }
}

impl Default for PerformanceConfig {
    /// One thread per detected core, 1000 cache slots, batches of 100, a
    /// five-second timeout and a parallel threshold of 50.
    fn default() -> (r: Self)
        ensures
            r.thread_count >= 1,
            r.cache_size == 1000,
            r.batch_size == 100,
            r.timeout_ms == 5000,
            r.parallel_threshold == 50,
            r.is_positive(),
    {
        PerformanceConfig {
            thread_count: detected_cores(),
            cache_size: 1000,
            batch_size: 100,
            timeout_ms: 5000,
            parallel_threshold: 50,
        }
    }
}

/// Calls `num_cpus::get`, the number of logical cores available to this
/// process. The count depends on the machine; the crate documents only that
/// it is never below one, and that is all this contract claims.
#[verifier::external_body]
fn detected_cores() -> (n: usize)
    ensures
        n >= 1,
{
    num_cpus::get()
}

/// A workload adjustment keeps a configuration of positive parameters
/// positive, whatever was observed: a threshold of one is not scaled down
/// to zero.
pub proof fn lemma_adjust_keeps_positive(c: PerformanceConfig, avg_millis: nat, item_count: nat)
    requires
        c.is_positive(),
    ensures
        c.adjusted(avg_millis, item_count).is_positive(),
{
}

/// The configuration derived from a positive core count is positive.
pub proof fn lemma_baseline_is_positive(cores: nat)
    requires
        cores > 0,
    ensures
        PerformanceConfig::baseline(cores).is_positive(),
{
}

/// A workload adjustment touches the threshold and the batch size only, and
/// leaves a batch size of at least 10, whatever was observed.
pub proof fn lemma_adjust_touches_two_parameters(c: PerformanceConfig, avg_millis: nat, item_count: nat)
    ensures
        c.adjusted(avg_millis, item_count).batch_size >= MIN_BATCH_SIZE,
        c.adjusted(avg_millis, item_count).thread_count == c.thread_count,
        c.adjusted(avg_millis, item_count).cache_size == c.cache_size,
        c.adjusted(avg_millis, item_count).timeout_ms == c.timeout_ms,
{
}

} // verus!
