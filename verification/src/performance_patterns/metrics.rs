//! The metrics recorder: one record per observed operation, with its
//! duration and outcome, and the figures derived from the records.
//!
//! Times are whole nanoseconds on the recorder's stopwatch; a duration is
//! capped at `u64::MAX` nanoseconds.

use vstd::prelude::*;
use crate::clock::Stopwatch;
use crate::numeric::{saturate_to_u64, saturate_u64, Ratio};

verus! {

/// The record of one finished operation.
#[derive(Clone, Debug)]
pub struct OperationMetric {
    /// The label that the operation was started under.
    pub _name: String,
    /// How long the operation took, in nanoseconds.
    pub duration: u64,
    /// When the operation started, in nanoseconds on the stopwatch.
    pub _timestamp: u128,
    /// Whether the operation succeeded.
    pub success: bool,
}

/// An operation that was started and has not ended yet.
#[derive(Clone, Debug)]
struct Pending {
    name: String,
    started_at: u128,
}

/// Records operations and their durations.
#[derive(Clone, Debug)]
pub struct MetricsCollector {
    clock: Stopwatch,
    operations: Vec<OperationMetric>,
    pending: Option<Pending>,
}

/// The sum of the durations of `ops`, in nanoseconds.
pub open spec fn total_nanos(ops: Seq<OperationMetric>) -> nat
    decreases ops.len(),
{
    if ops.len() == 0 {
        0
    } else {
        total_nanos(ops.drop_last()) + ops.last().duration as nat
    }
}

/// The number of successful operations among `ops`.
pub open spec fn successes(ops: Seq<OperationMetric>) -> nat
    decreases ops.len(),
{
    if ops.len() == 0 {
        0
    } else {
        successes(ops.drop_last()) + if ops.last().success {
            1nat
        } else {
            0nat
        }
    }
}

/// The time between `started_at` and `now`, zero if the clock ran
/// backwards, capped at `u64::MAX`.
pub open spec fn elapsed_between(started_at: nat, now: nat) -> nat {
    if now > started_at {
        saturate_u64((now - started_at) as nat)
    } else {
        0
    }
}

/// The average duration of `ops` in nanoseconds, rounded down.
pub open spec fn average_nanos(ops: Seq<OperationMetric>) -> Option<u64> {
    if ops.len() == 0 {
        None
    } else {
        Some((total_nanos(ops) / ops.len()) as u64)
    }
}

/// The share of successful operations among `ops`, and one where nothing
/// was recorded.
pub open spec fn success_ratio(ops: Seq<OperationMetric>) -> Ratio {
    if ops.len() == 0 {
        Ratio { numerator: 1, denominator: 1 }
    } else {
        Ratio { numerator: successes(ops) as u64, denominator: ops.len() as u64 }
    }
}

/// Operation `a` ranks before operation `b` among the slowest: it took
/// longer, or as long and was recorded earlier.
pub open spec fn ranks_before(ops: Seq<OperationMetric>, a: int, b: int) -> bool {
    ops[a].duration > ops[b].duration || (ops[a].duration == ops[b].duration && a < b)
}

/// `picks` lists the positions of the `picks.len()` slowest operations of
/// `ops`, slowest first: the positions are valid, each ranks before the
/// next, and every position that is not listed ranks after all that are.
pub open spec fn is_slowest_ranking(ops: Seq<OperationMetric>, picks: Seq<int>) -> bool {
    &&& forall|j: int| 0 <= j < picks.len() ==> 0 <= #[trigger] picks[j] < ops.len()
    &&& forall|i: int, j: int|
        0 <= i < j < picks.len() ==> ranks_before(ops, #[trigger] picks[i], #[trigger] picks[j])
    &&& forall|p: int, j: int|
        0 <= p < ops.len() && 0 <= j < picks.len() && !picks.contains(p) ==> #[trigger] ranks_before(
            ops,
            picks[j],
            p,
        )
}

/// The sum of durations never exceeds the count times the largest duration.
pub proof fn lemma_total_nanos_bound(ops: Seq<OperationMetric>)
    ensures
        total_nanos(ops) <= ops.len() * u64::MAX,
    decreases ops.len(),
{
    if ops.len() > 0 {
        lemma_total_nanos_bound(ops.drop_last());
        assert((ops.len() - 1) * u64::MAX + u64::MAX == ops.len() * u64::MAX) by (nonlinear_arith);
    }
}

/// The average of the durations is itself a duration.
pub proof fn lemma_average_fits(ops: Seq<OperationMetric>)
    requires
        ops.len() > 0,
    ensures
        total_nanos(ops) / ops.len() <= u64::MAX,
{
    lemma_total_nanos_bound(ops);
    let n = ops.len() as int;
    let t = total_nanos(ops) as int;
    assert(t / n <= u64::MAX) by (nonlinear_arith)
        requires
            n > 0,
            0 <= t <= n * u64::MAX,
    ;
}

impl MetricsCollector {
    /// The label and the start time of the operation that is under way, if
    /// one is.
    pub closed spec fn pending(&self) -> Option<(Seq<char>, u128)> {
        match self.pending {
            Some(p) => Some((p.name@, p.started_at)),
            None => None,
        }
    }

    /// The finished operations, in the order in which they ended.
    pub closed spec fn records(&self) -> Seq<OperationMetric> {
        self.operations@
    }

    /// The finished operations, in the order in which they ended.
    pub fn operations(&self) -> (r: &Vec<OperationMetric>)
        ensures
            r@ == self.records(),
    {
        &self.operations
    }

    /// A recorder without records and with no operation under way.
    pub fn new() -> (r: Self)
        ensures
            r.records().len() == 0,
            r.pending() is None,
    {
        MetricsCollector { clock: Stopwatch::start(), operations: Vec::new(), pending: None }
    }

    /// Starts an operation at time `now`. An operation that was under way
    /// is forgotten.
    pub fn start_operation_at(&mut self, name: String, now: u128)
        ensures
            final(self).pending() == Some((name@, now)),
            final(self).records() == old(self).records(),
    {
        self.pending = Some(Pending { name, started_at: now });
    }

    /// Starts an operation at the current reading of the stopwatch.
    pub fn start_operation(&mut self, name: String)
        ensures
            final(self).pending() matches Some(p) && p.0 == name@,
            final(self).records() == old(self).records(),
    {
        let now = self.clock.elapsed_nanos();
        self.start_operation_at(name, now);
    }

    /// Ends the operation that is under way at time `now` and records it
    /// with its outcome. Nothing happens where no operation is under way.
    pub fn end_operation_at(&mut self, success: bool, now: u128)
        ensures
            final(self).pending() is None,
            match old(self).pending() {
                Some(p) => {
                    &&& final(self).records().len() == old(self).records().len() + 1
                    &&& final(self).records().drop_last() == old(self).records()
                    &&& final(self).records().last()._name@ == p.0
                    &&& final(self).records().last()._timestamp == p.1
                    &&& final(self).records().last().success == success
                    &&& final(self).records().last().duration as nat == elapsed_between(
                        p.1 as nat,
                        now as nat,
                    )
                },
                None => final(self).records() == old(self).records(),
            },
    {
        let ghost before = self.records();
        match self.pending.take() {
            Some(p) => {
                let duration = if now > p.started_at {
                    saturate_to_u64(now - p.started_at)
                } else {
                    0
                };
                self.operations.push(
                    OperationMetric {
                        _name: p.name,
                        duration,
                        _timestamp: p.started_at,
                        success,
                    },
                );
                assert(self.records().drop_last() =~= before);
            },
            None => {},
        }
    }

    /// Ends the operation that is under way at the current reading of the
    /// stopwatch and records it with its outcome.
    pub fn end_operation(&mut self, success: bool)
        ensures
            final(self).pending() is None,
            match old(self).pending() {
                Some(p) => {
                    &&& final(self).records().len() == old(self).records().len() + 1
                    &&& final(self).records().drop_last() == old(self).records()
                    &&& final(self).records().last()._name@ == p.0
                    &&& final(self).records().last()._timestamp == p.1
                    &&& final(self).records().last().success == success
                },
                None => final(self).records() == old(self).records(),
            },
    {
        let now = self.clock.elapsed_nanos();
        self.end_operation_at(success, now);
    }

    /// The time since the recorder was created, in nanoseconds.
    pub fn total_duration(&self) -> u128 {
        self.clock.elapsed_nanos()
    }

    /// The average duration of the recorded operations in nanoseconds,
    /// rounded down, or nothing where there is no record.
    pub fn average_duration(&self) -> (r: Option<u64>)
        ensures
            r == average_nanos(self.records()),
    {
        let n = self.operations.len();
        if n == 0 {
            return None;
        }
        let mut total: u128 = 0;
        let mut i: usize = 0;
        proof {
            assert(self.records().take(0) =~= Seq::<OperationMetric>::empty());
        }
        while i < n
            invariant
                i <= n,
                n == self.operations.len(),
                total as nat == total_nanos(self.records().take(i as int)),
            decreases n - i,
        {
            proof {
                let upto = self.records().take(i + 1);
                assert(upto.drop_last() =~= self.records().take(i as int));
                lemma_total_nanos_bound(upto);
                assert(upto.len() * u64::MAX <= usize::MAX * u64::MAX) by (nonlinear_arith)
                    requires
                        upto.len() <= usize::MAX,
                ;
                assert(usize::MAX * u64::MAX <= 0xffff_ffff_ffff_ffff * 0xffff_ffff_ffff_ffff)
                    by (nonlinear_arith)
                    requires
                        usize::MAX <= 0xffff_ffff_ffff_ffff,
                        u64::MAX == 0xffff_ffff_ffff_ffff,
                ;
            }
            total = total + self.operations[i].duration as u128;
            i = i + 1;
        }
        proof {
            assert(self.records().take(n as int) =~= self.records());
            lemma_average_fits(self.records());
        }
        Some((total / n as u128) as u64)
    }

    /// The share of successful operations among the recorded ones, and one
    /// where there is no record.
    pub fn success_rate(&self) -> (r: Ratio)
        ensures
            r == success_ratio(self.records()),
            r.wf(),
    {
        let n = self.operations.len();
        if n == 0 {
            return Ratio { numerator: 1, denominator: 1 };
        }
        let mut successful: usize = 0;
        let mut i: usize = 0;
        proof {
            assert(self.records().take(0) =~= Seq::<OperationMetric>::empty());
        }
        while i < n
            invariant
                i <= n,
                n == self.operations.len(),
                successful <= i,
                successful as nat == successes(self.records().take(i as int)),
            decreases n - i,
        {
            proof {
                assert(self.records().take(i + 1).drop_last() =~= self.records().take(i as int));
            }
            if self.operations[i].success {
                successful = successful + 1;
            }
            i = i + 1;
        }
        proof {
            assert(self.records().take(n as int) =~= self.records());
        }
        Ratio { numerator: successful as u64, denominator: n as u64 }
    }

    /// The position of the operation that ranks first among those that rank
    /// after `after` (among all operations where `after` is nothing).
    fn next_slowest(&self, after: Option<usize>) -> (r: Option<usize>)
        requires
            after matches Some(a) ==> a < self.operations.len(),
        ensures
            match r {
                Some(b) => {
                    &&& b < self.records().len()
                    &&& ranks_after(self.records(), after, b as int)
                    &&& forall|p: int|
                        0 <= p < self.records().len() && p != b && #[trigger] ranks_after(
                            self.records(),
                            after,
                            p,
                        ) ==> ranks_before(self.records(), b as int, p)
                },
                None => forall|p: int|
                    0 <= p < self.records().len() ==> !#[trigger] ranks_after(
                        self.records(),
                        after,
                        p,
                    ),
            },
    {
        let n = self.operations.len();
        let mut best: Option<usize> = None;
        let mut i: usize = 0;
        while i < n
            invariant
                i <= n,
                n == self.operations.len(),
                after matches Some(a) ==> a < n,
                match best {
                    Some(b) => {
                        &&& b < i
                        &&& ranks_after(self.records(), after, b as int)
                        &&& forall|p: int|
                            0 <= p < i && p != b && #[trigger] ranks_after(self.records(), after, p)
                                ==> ranks_before(self.records(), b as int, p)
                    },
                    None => forall|p: int|
                        0 <= p < i ==> !#[trigger] ranks_after(self.records(), after, p),
                },
            decreases n - i,
        {
            let eligible = match after {
                Some(a) => self.operations[a].duration > self.operations[i].duration || (
                self.operations[a].duration == self.operations[i].duration && a < i),
                None => true,
            };
            assert(eligible == ranks_after(self.records(), after, i as int));
            if eligible {
                let better = match best {
                    Some(b) => self.operations[i].duration > self.operations[b].duration,
                    None => true,
                };
                if better {
                    best = Some(i);
                }
            }
            i = i + 1;
        }
        best
    }

    /// The `count` slowest operations, slowest first; operations of equal
    /// duration keep the order in which they were recorded. Where fewer
    /// than `count` operations are recorded, all of them are returned.
    pub fn slowest_operations(&self, count: usize) -> (r: Vec<&OperationMetric>)
        ensures
            r.len() == if count < self.records().len() {
                count as nat
            } else {
                self.records().len()
            },
            exists|picks: Seq<int>|
                {
                    &&& picks.len() == r.len()
                    &&& #[trigger] is_slowest_ranking(self.records(), picks)
                    &&& forall|j: int|
                        0 <= j < r.len() ==> *(#[trigger] r@[j]) == self.records()[picks[j]]
                },
    {
        let n = self.operations.len();
        let mut out: Vec<&OperationMetric> = Vec::new();
        let mut last: Option<usize> = None;
        let ghost mut picks: Seq<int> = Seq::empty();
        loop
            invariant_except_break
                n == self.operations.len(),
                out.len() == picks.len(),
                out.len() <= count,
                last matches Some(a) ==> a < n && picks.len() > 0 && picks.last() == a,
                last is None ==> picks.len() == 0,
                is_slowest_ranking(self.records(), picks),
                forall|p: int|
                    0 <= p < n ==> (picks.contains(p) <==> !#[trigger] ranks_after(
                        self.records(),
                        last,
                        p,
                    )) || last is None,
                forall|j: int| 0 <= j < out.len() ==> *(#[trigger] out@[j]) == self.records()[picks[j]],
            ensures
                n == self.operations.len(),
                out.len() == picks.len(),
                out.len() == if count < n {
                    count
                } else {
                    n
                },
                is_slowest_ranking(self.records(), picks),
                forall|j: int| 0 <= j < out.len() ==> *(#[trigger] out@[j]) == self.records()[picks[j]],
            decreases count - out.len(),
        {
            proof {
                lemma_picks_are_distinct(self.records(), picks);
            }
            if out.len() >= count {
                break ;
            }
            match self.next_slowest(last) {
                Some(b) => {
                    let ghost old_picks = picks;
                    proof {
                        picks = old_picks.push(b as int);
                        lemma_ranking_extends(self.records(), old_picks, last, b);
                    }
                    out.push(&self.operations[b]);
                    last = Some(b);
                    proof {
                        assert forall|j: int| 0 <= j < out.len() implies *(#[trigger] out@[j])
                            == self.records()[picks[j]] by {
                            if j < old_picks.len() {
                                assert(picks[j] == old_picks[j]);
                            }
                        }
                    }
                },
                None => {
                    proof {
                        assert forall|p: int| 0 <= p < n implies picks.contains(p) by {
                            assert(!ranks_after(self.records(), last, p));
                        }
                        lemma_all_picked(n as nat, picks);
                    }
                    break ;
                },
            }
        }
        out
    }
}

/// Operation `p` ranks after the operation at `after`, if there is one.
pub open spec fn ranks_after(ops: Seq<OperationMetric>, after: Option<usize>, p: int) -> bool {
    match after {
        Some(a) => ranks_before(ops, a as int, p),
        None => true,
    }
}

/// A ranking whose listed positions are exactly those that do not rank
/// after its last one stays a ranking when the first of the others is
/// appended.
pub proof fn lemma_ranking_extends(
    ops: Seq<OperationMetric>,
    picks: Seq<int>,
    last: Option<usize>,
    at: usize,
)
    requires
        ops.len() <= usize::MAX,
        is_slowest_ranking(ops, picks),
        last matches Some(a) ==> a < ops.len() && picks.len() > 0 && picks.last() == a,
        last is None ==> picks.len() == 0,
        forall|p: int|
            0 <= p < ops.len() ==> (picks.contains(p) <==> !#[trigger] ranks_after(ops, last, p))
                || last is None,
        at < ops.len(),
        ranks_after(ops, last, at as int),
        forall|p: int|
            0 <= p < ops.len() && p != at && #[trigger] ranks_after(ops, last, p) ==> ranks_before(
                ops,
                at as int,
                p,
            ),
    ensures
        is_slowest_ranking(ops, picks.push(at as int)),
        forall|p: int|
            0 <= p < ops.len() ==> (picks.push(at as int).contains(p) <==> !#[trigger] ranks_after(
                ops,
                Some(at),
                p,
            )),
{
    let b = at as int;
    let next = picks.push(b);
    let top = picks.len() as int;
    assert(next[top] == b);
    assert(!picks.contains(b)) by {
        if picks.contains(b) {
            assert(last is Some);
            assert(!ranks_after(ops, last, b));
        }
    }
    assert forall|j: int| 0 <= j < next.len() implies 0 <= #[trigger] next[j] < ops.len() by {
        if j < top {
            assert(next[j] == picks[j]);
        }
    }
    // every listed position ranks before b
    assert forall|j: int| 0 <= j < top implies ranks_before(ops, picks[j], b) by {
        assert(picks.contains(picks[j]));
        assert(!picks.contains(b));
        assert(ranks_before(ops, picks[j], b));
    }
    assert forall|i: int, j: int| 0 <= i < j < next.len() implies ranks_before(
        ops,
        #[trigger] next[i],
        #[trigger] next[j],
    ) by {
        assert(next[i] == picks[i]);
        if j < top {
            assert(next[j] == picks[j]);
        }
    }
    assert forall|p: int| 0 <= p < ops.len() implies (next.contains(p) <==> !#[trigger] ranks_after(
        ops,
        Some(at),
        p,
    )) by {
        if next.contains(p) {
            let w = choose|w: int| 0 <= w < next.len() && next[w] == p;
            if w < top {
                assert(picks[w] == p);
                assert(ranks_before(ops, picks[w], b));
            }
        } else {
            assert(p != b);
            assert(!picks.contains(p)) by {
                if picks.contains(p) {
                    let w = choose|w: int| 0 <= w < picks.len() && picks[w] == p;
                    assert(next[w] == p);
                }
            }
            assert(ranks_after(ops, last, p));
        }
    }
    assert forall|p: int, j: int|
        0 <= p < ops.len() && 0 <= j < next.len() && !next.contains(p) implies #[trigger] ranks_before(
        ops,
        next[j],
        p,
    ) by {
        assert(ranks_after(ops, Some(at), p));
        if j < top {
            assert(next[j] == picks[j]);
            assert(ranks_before(ops, picks[j], b));
        }
    }
}

/// The positions of a ranking are pairwise distinct, so there are no more
/// of them than operations.
pub proof fn lemma_picks_are_distinct(ops: Seq<OperationMetric>, picks: Seq<int>)
    requires
        is_slowest_ranking(ops, picks),
    ensures
        picks.no_duplicates(),
        picks.len() <= ops.len(),
{
    assert forall|i: int, j: int| 0 <= i < picks.len() && 0 <= j < picks.len() && i != j implies picks[i]
        != picks[j] by {
        if i < j {
            assert(ranks_before(ops, picks[i], picks[j]));
        } else {
            assert(ranks_before(ops, picks[j], picks[i]));
        }
    }
    lemma_distinct_positions_fit(ops.len(), picks);
}

/// Pairwise distinct positions below `n` are at most `n`.
pub proof fn lemma_distinct_positions_fit(n: nat, picks: Seq<int>)
    requires
        picks.no_duplicates(),
        forall|j: int| 0 <= j < picks.len() ==> 0 <= #[trigger] picks[j] < n,
    ensures
        picks.len() <= n,
{
    let positions = picks.to_set();
    let all = Set::new(|p: int| 0 <= p < n);
    picks.unique_seq_to_set();
    vstd::set_lib::lemma_int_range(0, n as int);
    assert(all =~= vstd::set_lib::set_int_range(0, n as int));
    assert(positions.subset_of(all)) by {
        assert forall|p: int| positions.contains(p) implies all.contains(p) by {
            let w = choose|w: int| 0 <= w < picks.len() && picks[w] == p;
            assert(0 <= picks[w] < n);
        }
    }
    vstd::set_lib::lemma_len_subset(positions, all);
}

/// Where every position is picked, the ranking lists all operations.
pub proof fn lemma_all_picked(n: nat, picks: Seq<int>)
    requires
        picks.no_duplicates(),
        picks.len() <= n,
        forall|j: int| 0 <= j < picks.len() ==> 0 <= #[trigger] picks[j] < n,
        forall|p: int| 0 <= p < n ==> picks.contains(p),
    ensures
        picks.len() == n,
{
    let positions = picks.to_set();
    let all = Set::new(|p: int| 0 <= p < n);
    picks.unique_seq_to_set();
    vstd::set_lib::lemma_int_range(0, n as int);
    assert(all =~= vstd::set_lib::set_int_range(0, n as int));
    assert(all.subset_of(positions));
    vstd::set_lib::lemma_len_subset(all, positions);
}

impl Default for MetricsCollector {
    fn default() -> (r: Self)
        ensures
            r.records().len() == 0,
            r.pending() is None,
    {
        Self::new()
    }
}

} // verus!
