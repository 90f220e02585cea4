//! The dispatcher: runs a function over a batch of items either in place,
//! one item after the other, or on a pool of worker threads, and returns the
//! results in the order of the items either way.

use vstd::prelude::*;
use vstd::slice::slice_subrange;
use rayon::iter::{IndexedParallelIterator, IntoParallelIterator, ParallelIterator};
use rayon::slice::ParallelSlice;
use crate::numeric::{at_least, floor_sqrt, is_floor_sqrt, isqrt, lemma_floor_sqrt_is, saturate};
use crate::performance_patterns::config::PerformanceConfig;
use crate::performance_patterns::threshold::{
    lemma_threshold_bounds,
    tensor_analyze_workload,
    threshold_for,
};

verus! {

/// `rayon::ThreadPool`: a set of worker threads. The dispatcher hands a
/// pool to the functions that run work on it and never looks inside.
#[verifier::external_type_specification]
#[verifier::external_body]
pub struct ExThreadPool(rayon::ThreadPool);

/// `rayon::ThreadPoolBuildError`: why a pool could not be started. The
/// dispatcher only tells it apart from a pool.
#[verifier::external_type_specification]
#[verifier::external_body]
pub struct ExThreadPoolBuildError(rayon::ThreadPoolBuildError);

/// How a batch is executed.
#[derive(Clone, Copy, Debug, PartialEq, Eq)]
pub enum DispatchMode {
    /// In the calling thread, item by item, in input order.
    Sequential,
    /// On a pool of worker threads.
    Parallel,
}

/// Why a dispatch produced no results.
#[derive(Clone, Copy, Debug, PartialEq, Eq)]
pub enum DispatchError {
    /// The worker pool could not be started.
    PoolUnavailable,
}

/// A batch goes to the worker pool exactly when it holds more items than
/// the effective threshold.
pub open spec fn mode_for(len: nat, effective_threshold: nat) -> DispatchMode {
    if len > effective_threshold {
        DispatchMode::Parallel
    } else {
        DispatchMode::Sequential
    }
}

/// Chunked work goes to the worker pool exactly when it makes more than one
/// batch and holds more items than the parallel threshold.
pub open spec fn chunked_mode_for(len: nat, batch_size: nat, parallel_threshold: nat) -> DispatchMode {
    if batch_count(len, batch_size) > 1 && len > parallel_threshold {
        DispatchMode::Parallel
    } else {
        DispatchMode::Sequential
    }
}

/// The minimum number of items that one worker takes at a time: the items
/// per thread divided by half the square root of the thread count, rounded
/// down, and at least one.
///
/// With `p = total / threads` this is `floor(2 * p / sqrt(threads))`, which
/// equals the integer square root of `floor(4 * p * p / threads)`.
pub open spec fn min_chunk_len(total: nat, threads: nat) -> nat
    recommends
        threads > 0,
{
    let per_thread = total / threads;
    saturate(at_least(1, floor_sqrt(4 * per_thread * per_thread / threads)))
}

/// The number of batches of `batch_size` items that `len` items make.
pub open spec fn batch_count(len: nat, batch_size: nat) -> nat
    recommends
        batch_size > 0,
{
    if len % batch_size == 0 {
        len / batch_size
    } else {
        len / batch_size + 1
    }
}

/// The `k`-th batch of `items`: `batch_size` consecutive items, fewer in the
/// last batch.
pub open spec fn batch_of<T>(items: Seq<T>, batch_size: nat, k: int) -> Seq<T> {
    let start = k * batch_size;
    let end = if start + batch_size < items.len() {
        start + batch_size
    } else {
        items.len() as int
    };
    items.subrange(start, end)
}

/// `out` holds, position by position, a result of `func` on the item at the
/// same position of `items`.
pub open spec fn is_mapped<T, R, F: Fn(T) -> R>(func: F, items: Seq<T>, out: Seq<R>) -> bool {
    &&& out.len() == items.len()
    &&& forall|i: int| 0 <= i < items.len() ==> call_ensures(func, (items[i],), #[trigger] out[i])
}

/// `func` accepts every item of `items`.
pub open spec fn accepts_all<T, R, F: Fn(T) -> R>(func: F, items: Seq<T>) -> bool {
    forall|i: int| 0 <= i < items.len() ==> call_requires(func, (#[trigger] items[i],))
}

/// `func` returns one result per argument.
pub open spec fn is_deterministic<T, R, F: Fn(T) -> R>(func: F) -> bool {
    forall|x: T, a: R, b: R|
        #[trigger] call_ensures(func, (x,), a) && #[trigger] call_ensures(func, (x,), b) ==> a == b
}

/// `out` is a result of `func` on a slice that holds `batch`.
pub open spec fn is_batch_output<T, R, F: Fn(&[T]) -> Vec<R>>(
    func: F,
    batch: Seq<T>,
    out: Seq<R>,
) -> bool {
    exists|chunk: &[T], produced: Vec<R>|
        chunk@ == batch && produced@ == out && #[trigger] call_ensures(func, (chunk,), produced)
}

/// `batch` is one of the batches of `items`.
pub open spec fn is_batch<T>(items: Seq<T>, batch_size: nat, batch: Seq<T>) -> bool {
    exists|k: int|
        0 <= k < batch_count(items.len(), batch_size) && batch == #[trigger] batch_of(
            items,
            batch_size,
            k,
        )
}

/// `func` accepts every batch of `items`.
pub open spec fn accepts_batches<T, R, F: Fn(&[T]) -> Vec<R>>(
    func: F,
    items: Seq<T>,
    batch_size: nat,
) -> bool {
    forall|chunk: &[T]|
        is_batch(items, batch_size, chunk@) ==> #[trigger] call_requires(func, (chunk,))
}

/// `parts` holds, batch by batch, a result of `func` on the batch at the
/// same position.
pub open spec fn is_mapped_by_batch<T, R, F: Fn(&[T]) -> Vec<R>>(
    func: F,
    items: Seq<T>,
    batch_size: nat,
    parts: Seq<Seq<R>>,
) -> bool {
    &&& parts.len() == batch_count(items.len(), batch_size)
    &&& forall|k: int|
        0 <= k < parts.len() ==> is_batch_output(
            func,
            batch_of(items, batch_size, k),
            #[trigger] parts[k],
        )
}

/// `out` is the concatenation, in batch order, of results of `func` on the
/// batches of `items`.
pub open spec fn is_chunk_mapped<T, R, F: Fn(&[T]) -> Vec<R>>(
    func: F,
    items: Seq<T>,
    batch_size: nat,
    out: Seq<R>,
) -> bool {
    exists|parts: Seq<Seq<R>>| #[trigger]
        is_mapped_by_batch(func, items, batch_size, parts) && out == parts.flatten()
}

/// The views of a sequence of vectors.
pub open spec fn views_of<R>(parts: Seq<Vec<R>>) -> Seq<Seq<R>> {
    Seq::new(parts.len(), |k: int| parts[k]@)
}

/// Decides how a batch of `len` items is executed under an effective
/// threshold.
pub fn choose_mode(len: usize, effective_threshold: usize) -> (mode: DispatchMode)
    ensures
        mode == mode_for(len as nat, effective_threshold as nat),
{
    if len > effective_threshold {
        DispatchMode::Parallel
    } else {
        DispatchMode::Sequential
    }
}

/// Decides how a batch of `len` items is executed under a configuration:
/// on the worker pool exactly when it holds more items than the effective
/// threshold of the configuration for `len` items.
///
/// The effective threshold lies between half and twice the parallel
/// threshold, so it is only evaluated for a batch in that range.
pub fn workload_mode(len: usize, config: &PerformanceConfig) -> (mode: DispatchMode)
    ensures
        mode == mode_for(len as nat, threshold_for(len as nat, *config)),
{
    let base = config.parallel_threshold;
    proof {
        lemma_threshold_bounds(len as nat, config.thread_count as nat, base as nat);
    }
    if len <= base / 2 {
        DispatchMode::Sequential
    } else if len / 2 >= base && len > 2 * base {
        DispatchMode::Parallel
    } else {
        choose_mode(len, tensor_analyze_workload(len, config))
    }
}

/// Doubling is the integer square root of four times the square.
proof fn lemma_sqrt_of_four_squares(p: nat)
    ensures
        floor_sqrt(4 * p * p) == 2 * p,
{
    assert(is_floor_sqrt(4 * p * p, 2 * p)) by (nonlinear_arith);
    lemma_floor_sqrt_is(4 * p * p, 2 * p);
}

/// Computes the minimum number of items that one worker takes at a time.
pub fn calculate_tensor_chunks(total_items: usize, thread_count: usize) -> (r: usize)
    requires
        thread_count > 0,
    ensures
        r as nat == min_chunk_len(total_items as nat, thread_count as nat),
        r >= 1,
{
    let per_thread = total_items / thread_count;
    let p = per_thread as u128;
    if thread_count == 1 {
        proof {
            lemma_sqrt_of_four_squares(per_thread as nat);
            assert(4 * (per_thread as nat) * (per_thread as nat) / 1 == 4 * (per_thread as nat) * (
            per_thread as nat));
        }
        let doubled = 2 * p;
        if doubled < 1 {
            1
        } else if doubled > usize::MAX as u128 {
            usize::MAX
        } else {
            doubled as usize
        }
    } else {
        assert(per_thread <= usize::MAX / 2) by (nonlinear_arith)
            requires
                per_thread == total_items / thread_count,
                thread_count >= 2,
                total_items <= usize::MAX,
        ;
        assert(4 * p * p <= 4 * 0x7fff_ffff_ffff_ffff * 0x7fff_ffff_ffff_ffff) by (nonlinear_arith)
            requires
                p <= 0x7fff_ffff_ffff_ffff,
        ;
        let squared: u128 = 4 * p * p;
        let root = isqrt(squared / (thread_count as u128));
        if root < 1 {
            1
        } else if root as u128 > usize::MAX as u128 {
            usize::MAX
        } else {
            root as usize
        }
    }
}

/// Calls `rayon::ThreadPoolBuilder::new`, `num_threads` and `build`: starts
/// a pool of `threads` worker threads. Whether the threads can be started
/// depends on the machine, so nothing is claimed of the outcome.
#[verifier::external_body]
fn build_pool(threads: usize) -> Result<rayon::ThreadPool, rayon::ThreadPoolBuildError> {
    rayon::ThreadPoolBuilder::new().num_threads(threads).build()
}

/// Calls `rayon::ThreadPool::install` around
/// `into_par_iter().with_min_len(min_len).map(func).collect()`: applies
/// `func` to every item on the pool's threads. Collecting an indexed
/// parallel iterator into a vector keeps the order of the items, whichever
/// thread finishes first; that is what the contract claims.
#[verifier::external_body]
fn pool_map<T, F, R>(pool: &rayon::ThreadPool, items: Vec<T>, func: F, min_len: usize) -> (out: Vec<
    R,
>) where F: Fn(T) -> R + Sync + Send, T: Send, R: Send
    requires
        accepts_all(func, items@),
    ensures
        is_mapped(func, items@, out@),
{
    pool.install(|| items.into_par_iter().with_min_len(min_len).map(func).collect())
}

/// Calls `rayon::ThreadPool::install` around
/// `par_chunks(batch_size).map(func).collect()`: applies `func` to every
/// batch of `batch_size` consecutive items (fewer in the last batch) on the
/// pool's threads. The collected vector holds one result per batch, in
/// batch order. `par_chunks` panics on a batch size of zero, which the
/// precondition excludes.
#[verifier::external_body]
fn pool_map_batches<T, F, R>(
    pool: &rayon::ThreadPool,
    items: &Vec<T>,
    batch_size: usize,
    func: F,
) -> (parts: Vec<Vec<R>>) where F: Fn(&[T]) -> Vec<R> + Sync + Send, T: Send + Sync, R: Send
    requires
        batch_size > 0,
        accepts_batches(func, items@, batch_size as nat),
    ensures
        is_mapped_by_batch(func, items@, batch_size as nat, views_of(parts@)),
{
    pool.install(|| items.par_chunks(batch_size).map(func).collect())
}

/// Applies `func` to every item in the calling thread, in input order.
fn map_in_order<T, F, R>(items: Vec<T>, func: F) -> (out: Vec<R>) where F: Fn(T) -> R
    requires
        accepts_all(func, items@),
    ensures
        is_mapped(func, items@, out@),
{
    let ghost src = items@;
    let mut out: Vec<R> = Vec::new();
    for item in it: items
        invariant
            it.seq() == src,
            out.len() == it.index(),
            accepts_all(func, src),
            forall|i: int| 0 <= i < out.len() ==> call_ensures(func, (src[i],), #[trigger] out@[i]),
    {
        let result = func(item);
        out.push(result);
    }
    out
}

/// The number of whole strides that brought a walk over `len` items to its
/// end is the number of batches.
proof fn lemma_batch_count_reached(len: nat, batch_size: nat, k: nat)
    requires
        batch_size > 0,
        k * batch_size >= len,
        k > 0 ==> (k - 1) * batch_size < len,
    ensures
        k == batch_count(len, batch_size),
{
    let q = len / batch_size;
    let r = len % batch_size;
    assert(len == q * batch_size + r && 0 <= r < batch_size) by (nonlinear_arith)
        requires
            batch_size > 0,
            q == len / batch_size,
            r == len % batch_size,
    ;
    if r == 0 {
        assert(k == q) by (nonlinear_arith)
            requires
                batch_size > 0,
                len == q * batch_size,
                k * batch_size >= len,
                k > 0 ==> (k - 1) * batch_size < len,
        ;
    } else {
        assert(k == q + 1) by (nonlinear_arith)
            requires
                batch_size > 0,
                len == q * batch_size + r,
                0 < r < batch_size,
                k * batch_size >= len,
                k > 0 ==> (k - 1) * batch_size < len,
        ;
    }
}

/// A batch index below the batch count starts inside the items.
pub proof fn lemma_batch_starts_inside(len: nat, batch_size: nat, k: nat)
    requires
        batch_size > 0,
        k < batch_count(len, batch_size),
    ensures
        k * batch_size < len,
{
    let q = len / batch_size;
    let r = len % batch_size;
    assert(len == q * batch_size + r && 0 <= r < batch_size) by (nonlinear_arith)
        requires
            batch_size > 0,
            q == len / batch_size,
            r == len % batch_size,
    ;
    assert(k * batch_size < len) by (nonlinear_arith)
        requires
            batch_size > 0,
            len == q * batch_size + r,
            0 <= r < batch_size,
            (r == 0 && k < q) || (r > 0 && k <= q),
    ;
}

/// Applies `func` to every batch in the calling thread, in batch order.
fn map_batches_in_order<T, F, R>(items: &Vec<T>, batch_size: usize, func: F) -> (parts: Vec<
    Vec<R>,
>) where F: Fn(&[T]) -> Vec<R>
    requires
        batch_size > 0,
        accepts_batches(func, items@, batch_size as nat),
    ensures
        is_mapped_by_batch(func, items@, batch_size as nat, views_of(parts@)),
{
    let len = items.len();
    let mut parts: Vec<Vec<R>> = Vec::new();
    let mut start: usize = 0;
    let ghost mut k: nat = 0;
    while start < len
        invariant
            batch_size > 0,
            len == items.len(),
            start <= len,
            start == if k * batch_size < len {
                k * batch_size
            } else {
                len as int
            },
            k > 0 ==> (k - 1) * batch_size < len,
            parts.len() == k,
            accepts_batches(func, items@, batch_size as nat),
            forall|j: int|
                0 <= j < k ==> is_batch_output(
                    func,
                    batch_of(items@, batch_size as nat, j),
                    #[trigger] views_of(parts@)[j],
                ),
        decreases len - start,
    {
        let end = if len - start > batch_size {
            start + batch_size
        } else {
            len
        };
        let chunk = slice_subrange(items.as_slice(), start, end);
        proof {
            assert(start == k * batch_size);
            assert((k + 1) * batch_size == k * batch_size + batch_size) by (nonlinear_arith);
            assert(chunk@ == batch_of(items@, batch_size as nat, k as int));
            lemma_batch_count_bounds(len as nat, batch_size as nat, k);
            assert(is_batch(items@, batch_size as nat, chunk@));
        }
        let produced = func(chunk);
        let ghost before = parts@;
        parts.push(produced);
        proof {
            assert forall|j: int| 0 <= j < k + 1 implies is_batch_output(
                func,
                batch_of(items@, batch_size as nat, j),
                #[trigger] views_of(parts@)[j],
            ) by {
                if j < k {
                    assert(views_of(parts@)[j] == views_of(before)[j]);
                }
            }
            k = k + 1;
        }
        start = end;
    }
    proof {
        lemma_batch_count_reached(len as nat, batch_size as nat, k);
    }
    parts
}

/// A walk that has not reached the end after `k` strides has made fewer
/// strides than there are batches.
proof fn lemma_batch_count_bounds(len: nat, batch_size: nat, k: nat)
    requires
        batch_size > 0,
        k * batch_size < len,
    ensures
        k < batch_count(len, batch_size),
{
    let q = len / batch_size;
    let r = len % batch_size;
    assert(len == q * batch_size + r && 0 <= r < batch_size) by (nonlinear_arith)
        requires
            batch_size > 0,
            q == len / batch_size,
            r == len % batch_size,
    ;
    assert((r == 0 && k < q) || (r > 0 && k <= q)) by (nonlinear_arith)
        requires
            batch_size > 0,
            len == q * batch_size + r,
            0 <= r < batch_size,
            k * batch_size < len,
    ;
}

/// Concatenates the parts in order.
fn concat_parts<R>(parts: Vec<Vec<R>>) -> (out: Vec<R>)
    ensures
        out@ == views_of(parts@).flatten(),
{
    let ghost src = parts@;
    let mut out: Vec<R> = Vec::new();
    proof {
        assert(views_of(src).take(0) =~= Seq::<Seq<R>>::empty());
    }
    for part in it: parts
        invariant
            it.seq() == src,
            out@ == views_of(src).take(it.index() as int).flatten(),
    {
        let ghost i = it.index() as int;
        let mut part = part;
        proof {
            let upto = views_of(src).take(i);
            upto.lemma_flatten_push(part@);
            assert(upto.push(part@) =~= views_of(src).take(i + 1));
        }
        out.append(&mut part);
    }
    proof {
        assert(views_of(src).take(src.len() as int) =~= views_of(src));
    }
    out
}

/// Applies `func` to every item and returns the results in input order.
///
/// A batch of more items than the effective threshold of the configuration
/// is processed on a pool of `config.thread_count` worker threads, each
/// taking at least `min_chunk_len` items at a time; any other batch is
/// processed in the calling thread, one item after the other. The dispatch
/// fails only where the pool cannot be started; nothing is retried.
pub fn parallel_process<T, F, R>(items: Vec<T>, func: F, config: &PerformanceConfig) -> (r: Result<
    Vec<R>,
    DispatchError,
>) where F: Fn(T) -> R + Sync + Send + Copy, T: Send, R: Send
    requires
        config.thread_count > 0,
        accepts_all(func, items@),
    ensures
        match r {
            Ok(out) => is_mapped(func, items@, out@),
            Err(e) => e == DispatchError::PoolUnavailable && mode_for(
                items.len() as nat,
                threshold_for(items.len() as nat, *config),
            ) == DispatchMode::Parallel,
        },
{
    match workload_mode(items.len(), config) {
        DispatchMode::Parallel => {
            let min_len = calculate_tensor_chunks(items.len(), config.thread_count);
            match build_pool(config.thread_count) {
                Ok(pool) => Ok(pool_map(&pool, items, func, min_len)),
                Err(_) => Err(DispatchError::PoolUnavailable),
            }
        },
        DispatchMode::Sequential => Ok(map_in_order(items, func)),
    }
}

/// Decides how chunked work of `len` items is executed under a
/// configuration.
pub fn chunked_mode(len: usize, config: &PerformanceConfig) -> (mode: DispatchMode)
    requires
        config.batch_size > 0,
    ensures
        mode == chunked_mode_for(
            len as nat,
            config.batch_size as nat,
            config.parallel_threshold as nat,
        ),
{
    proof {
        lemma_more_than_one_batch(len as nat, config.batch_size as nat);
    }
    if len > config.batch_size && len > config.parallel_threshold {
        DispatchMode::Parallel
    } else {
        DispatchMode::Sequential
    }
}

/// Splits `items` into batches of `config.batch_size` items, applies `func`
/// to every batch and returns the concatenated results in batch order.
///
/// More than one batch holding more than `config.parallel_threshold` items
/// in all is processed on a pool of `config.thread_count` worker threads;
/// anything else is processed in the calling thread, one batch after the
/// other. The dispatch fails only where the pool cannot be started; nothing
/// is retried.
pub fn chunked_parallel_process<T, F, R>(items: Vec<T>, func: F, config: &PerformanceConfig) -> (r:
    Result<Vec<R>, DispatchError>) where
    F: Fn(&[T]) -> Vec<R> + Sync + Send + Copy,
    T: Send + Sync,
    R: Send,

    requires
        config.batch_size > 0,
        accepts_batches(func, items@, config.batch_size as nat),
    ensures
        match r {
            Ok(out) => is_chunk_mapped(func, items@, config.batch_size as nat, out@),
            Err(e) => e == DispatchError::PoolUnavailable && chunked_mode_for(
                items.len() as nat,
                config.batch_size as nat,
                config.parallel_threshold as nat,
            ) == DispatchMode::Parallel,
        },
{
    let parts = match chunked_mode(items.len(), config) {
        DispatchMode::Parallel => match build_pool(config.thread_count) {
            Ok(pool) => pool_map_batches(&pool, &items, config.batch_size, func),
            Err(_) => {
                return Err(DispatchError::PoolUnavailable);
            },
        },
        DispatchMode::Sequential => map_batches_in_order(&items, config.batch_size, func),
    };
    let out = concat_parts(parts);
    assert(is_mapped_by_batch(func, items@, config.batch_size as nat, views_of(parts@)));
    Ok(out)
}

/// There is more than one batch exactly when the items outnumber the batch
/// size.
pub proof fn lemma_more_than_one_batch(len: nat, batch_size: nat)
    requires
        batch_size > 0,
    ensures
        batch_count(len, batch_size) > 1 <==> len > batch_size,
{
    let q = len / batch_size;
    let r = len % batch_size;
    assert(len == q * batch_size + r && 0 <= r < batch_size) by (nonlinear_arith)
        requires
            batch_size > 0,
            q == len / batch_size,
            r == len % batch_size,
    ;
    assert((if r == 0 {
        q
    } else {
        q + 1
    }) > 1 <==> len > batch_size) by (nonlinear_arith)
        requires
            batch_size > 0,
            len == q * batch_size + r,
            0 <= r < batch_size,
    ;
}

/// For a function that returns one result per argument, the results do not
/// depend on how the batch was executed: any two outputs that hold the
/// function's results in input order are equal, whatever the thread count
/// and whichever mode produced them.
pub proof fn lemma_mapped_output_is_unique<T, R, F: Fn(T) -> R>(
    func: F,
    items: Seq<T>,
    first: Seq<R>,
    second: Seq<R>,
)
    requires
        is_deterministic(func),
        is_mapped(func, items, first),
        is_mapped(func, items, second),
    ensures
        first == second,
{
    assert forall|i: int| 0 <= i < items.len() implies first[i] == second[i] by {
        assert(call_ensures(func, (items[i],), first[i]));
        assert(call_ensures(func, (items[i],), second[i]));
    }
    assert(first =~= second);
}

/// One item more than the effective threshold goes to the worker pool; one
/// item fewer, like the threshold itself, stays in the calling thread.
pub proof fn lemma_threshold_is_the_switch(effective_threshold: nat)
    ensures
        mode_for(effective_threshold + 1, effective_threshold) == DispatchMode::Parallel,
        mode_for(effective_threshold, effective_threshold) == DispatchMode::Sequential,
        effective_threshold > 0 ==> mode_for(
            (effective_threshold - 1) as nat,
            effective_threshold,
        ) == DispatchMode::Sequential,
        forall|len: nat|
            mode_for(len, effective_threshold) == DispatchMode::Parallel <==> len
                > effective_threshold,
{
}

} // verus!
