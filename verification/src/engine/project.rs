//! The analysis orchestrator: looks a project up in the session cache,
//! dispatches the per-file analysis, aggregates the results, refreshes the
//! cache and tunes the dispatch configuration from the observed timings.

use vstd::prelude::*;
use vstd::string::StringExecFns;
use crate::engine::analyzer::{
    AnalysisIssue, FileAnalysisResult, IssueModel, IssueSeverity, OptimizationEffort,
    OptimizationImpact, OptimizationSuggestion, SuggestionModel,
};
use crate::numeric::{saturate, Ratio};
use crate::performance_patterns::cache::{CacheModel, IntelligentCache};
use crate::performance_patterns::config::PerformanceConfig;
use crate::performance_patterns::dispatch::{
    accepts_all, batch_count, batch_of, chunked_parallel_process, is_batch_output, is_chunk_mapped,
    chunked_mode_for, is_mapped, is_mapped_by_batch, lemma_batch_starts_inside, mode_for,
    parallel_process, DispatchError, DispatchMode,
};
use crate::performance_patterns::threshold::threshold_for;
use crate::performance_patterns::metrics::{average_nanos, MetricsCollector, OperationMetric};
use crate::text::{decimal, push_decimal};

verus! {

/// Requested capacity of the session cache.
pub const SESSION_CACHE_SIZE: usize = 100;

/// Age in nanoseconds beyond which the orchestrator drops cached analyses
/// when the cache is not paying off: five minutes.
pub const STALE_AFTER_NANOS: u128 = 300_000_000_000;

/// Number of files above which the orchestrator runs the chunked unit
/// count.
pub const CHUNKED_COUNT_FROM: usize = 5;

/// The units that one file contributes to the chunked unit count.
pub const UNITS_PER_FILE: usize = 100;

/// Artifacts above this size in bytes are reported.
pub const LARGE_ARTIFACT_BYTES: u64 = 50_000_000;

/// A named figure of an analysis, as an exact fraction.
#[derive(Clone, Debug)]
pub struct Metric {
    pub name: String,
    pub value: Ratio,
}

/// The mathematical counterpart of a `Metric`.
pub struct MetricModel {
    pub name: Seq<char>,
    pub value: Ratio,
}

impl DeepView for Metric {
    type V = MetricModel;

    open spec fn deep_view(&self) -> MetricModel {
        MetricModel { name: self.name@, value: self.value }
    }
}

/// The result of analysing a project.
#[derive(Clone, Debug)]
pub struct ProjectAnalysis {
    pub issues: Vec<AnalysisIssue>,
    pub optimizations: Vec<OptimizationSuggestion>,
    pub suggestions: Vec<OptimizationSuggestion>,
    pub metrics: Vec<Metric>,
    pub total_lines: usize,
    pub files_count: usize,
}

/// The mathematical counterpart of a `ProjectAnalysis`.
pub struct AnalysisModel {
    pub issues: Seq<IssueModel>,
    pub optimizations: Seq<SuggestionModel>,
    pub suggestions: Seq<SuggestionModel>,
    pub metrics: Seq<MetricModel>,
    pub total_lines: usize,
    pub files_count: usize,
}

impl DeepView for ProjectAnalysis {
    type V = AnalysisModel;

    open spec fn deep_view(&self) -> AnalysisModel {
        AnalysisModel {
            issues: self.issues.deep_view(),
            optimizations: self.optimizations.deep_view(),
            suggestions: self.suggestions.deep_view(),
            metrics: self.metrics.deep_view(),
            total_lines: self.total_lines,
            files_count: self.files_count,
        }
    }
}

/// Why an analysis produced no result.
#[derive(Clone, Copy, Debug, PartialEq, Eq)]
pub enum AnalysisError {
    /// The per-file work could not be dispatched.
    DispatchFailed,
}

/// An artifact and its size in bytes, where the size is known.
#[derive(Clone, Debug)]
pub struct ArtifactInfo {
    pub path: String,
    pub size: Option<u64>,
}

/// The lines of all results together.
pub open spec fn sum_lines(results: Seq<FileAnalysisResult>) -> nat
    decreases results.len(),
{
    if results.len() == 0 {
        0
    } else {
        sum_lines(results.drop_last()) + results.last().lines as nat
    }
}

/// The findings of all results, in the order of the results.
pub open spec fn all_issues(results: Seq<FileAnalysisResult>) -> Seq<IssueModel>
    decreases results.len(),
{
    if results.len() == 0 {
        Seq::empty()
    } else {
        all_issues(results.drop_last()) + results.last().issues.deep_view()
    }
}

/// The suggestions of all results, in the order of the results.
pub open spec fn all_suggestions(results: Seq<FileAnalysisResult>) -> Seq<SuggestionModel>
    decreases results.len(),
{
    if results.len() == 0 {
        Seq::empty()
    } else {
        all_suggestions(results.drop_last()) + results.last().suggestions.deep_view()
    }
}

/// A whole number as a fraction.
pub open spec fn whole(n: usize) -> Ratio {
    Ratio { numerator: n as u64, denominator: 1 }
}

/// The average number of lines per file, and zero where there is no file.
pub open spec fn average_lines(total_lines: usize, files_count: usize) -> Ratio {
    if files_count > 0 {
        Ratio { numerator: total_lines as u64, denominator: files_count as u64 }
    } else {
        Ratio { numerator: 0, denominator: 1 }
    }
}

/// The hit rate below which the orchestrator drops stale cache entries:
/// six tenths.
pub open spec fn refresh_below() -> Ratio {
    Ratio { numerator: 6, denominator: 10 }
}

/// The figures that every project analysis carries: the number of files,
/// the average number of lines per file and the hit rate of the session
/// cache at the time of the analysis.
pub open spec fn base_metrics(total_lines: usize, files_count: usize, hit_rate: Ratio) -> Seq<
    MetricModel,
> {
    seq![
        MetricModel { name: "rust_files"@, value: whole(files_count) },
        MetricModel { name: "avg_lines_per_file"@, value: average_lines(total_lines, files_count) },
        MetricModel { name: "cache_efficiency"@, value: hit_rate },
    ]
}

/// The figures of a project analysis: the base figures and, for more than
/// five files, the chunked unit count.
pub open spec fn project_metrics(
    total_lines: usize,
    files_count: usize,
    hit_rate: Ratio,
    units: usize,
) -> Seq<MetricModel> {
    if files_count > CHUNKED_COUNT_FROM {
        base_metrics(total_lines, files_count, hit_rate).push(
            MetricModel { name: "parallel_processed_units"@, value: whole(units) },
        )
    } else {
        base_metrics(total_lines, files_count, hit_rate)
    }
}

/// What the analysis of a project with the given per-file results reports,
/// given the hit rate of the session cache and the chunked unit count.
pub open spec fn project_report(
    results: Seq<FileAnalysisResult>,
    hit_rate: Ratio,
    units: usize,
) -> AnalysisModel {
    let total_lines = saturate(sum_lines(results)) as usize;
    let files_count = results.len() as usize;
    AnalysisModel {
        issues: all_issues(results),
        optimizations: Seq::empty(),
        suggestions: all_suggestions(results),
        metrics: project_metrics(total_lines, files_count, hit_rate, units),
        total_lines,
        files_count,
    }
}

/// The session cache after a lookup that missed it and the sweep that may
/// follow: the lookup is counted as a miss, and stale entries are dropped
/// at time `cleared_at` if the hit rate has fallen below six tenths.
pub open spec fn cache_after_miss(
    before: CacheModel<ProjectAnalysis>,
    key: Seq<char>,
    cleared_at: u128,
) -> CacheModel<ProjectAnalysis> {
    let missed = before.after_get(key);
    if missed.hit_rate().below(refresh_below()) {
        missed.after_clear_expired(STALE_AFTER_NANOS as nat, cleared_at as nat)
    } else {
        missed
    }
}

/// The session cache after an analysis that missed it: the miss is counted,
/// stale entries may be swept, and `stored` is inserted under `key` at time
/// `stored_at`.
pub open spec fn cache_after_run(
    before: CacheModel<ProjectAnalysis>,
    key: Seq<char>,
    cleared_at: u128,
    stored: ProjectAnalysis,
    stored_at: u128,
) -> CacheModel<ProjectAnalysis> {
    cache_after_miss(before, key, cleared_at).after_insert(key, stored, stored_at)
}

/// The label under which the orchestrator records an analysis.
pub open spec fn run_label() -> Seq<char> {
    "project_analysis"@
}

/// An analysis of `files` files under `config` hands work to the worker
/// pool: the per-file work, where the files outnumber the effective
/// threshold, or the chunked unit count, which runs for more than five
/// files and takes the pool for more than one batch above the parallel
/// threshold. No other analysis can fail.
pub open spec fn needs_pool(files: nat, config: PerformanceConfig) -> bool {
    ||| mode_for(files, threshold_for(files, config)) == DispatchMode::Parallel
    ||| (files > CHUNKED_COUNT_FROM && chunked_mode_for(
        files,
        config.batch_size as nat,
        config.parallel_threshold as nat,
    ) == DispatchMode::Parallel)
}

/// The recorder holds the records `before` and one more, for an analysis
/// with the given outcome.
pub open spec fn recorded_run(
    before: Seq<OperationMetric>,
    after: Seq<OperationMetric>,
    success: bool,
) -> bool {
    &&& after.len() == before.len() + 1
    &&& after.drop_last() == before
    &&& after.last()._name@ == run_label()
    &&& after.last().success == success
}

/// The average duration of the records in whole milliseconds.
pub open spec fn average_millis(records: Seq<OperationMetric>) -> nat
    recommends
        records.len() > 0,
{
    (average_nanos(records).unwrap() / 1_000_000) as nat
}

/// The report for a list of artifacts: a critical finding and a suggestion
/// for every artifact of more than fifty million bytes.
pub open spec fn artifact_issues(artifacts: Seq<ArtifactInfo>) -> Seq<IssueModel>
    decreases artifacts.len(),
{
    if artifacts.len() == 0 {
        Seq::empty()
    } else {
        let rest = artifact_issues(artifacts.drop_last());
        let last = artifacts.last();
        if is_large(last) {
            rest.push(large_artifact_issue(last.path@, last.size.unwrap()))
        } else {
            rest
        }
    }
}

/// The suggestions for a list of artifacts.
pub open spec fn artifact_suggestions(artifacts: Seq<ArtifactInfo>) -> Seq<SuggestionModel>
    decreases artifacts.len(),
{
    if artifacts.len() == 0 {
        Seq::empty()
    } else {
        let rest = artifact_suggestions(artifacts.drop_last());
        let last = artifacts.last();
        if is_large(last) {
            rest.push(large_artifact_suggestion(last.path@))
        } else {
            rest
        }
    }
}

/// The artifact's size is known and exceeds fifty million bytes.
pub open spec fn is_large(artifact: ArtifactInfo) -> bool {
    artifact.size matches Some(size) && size > LARGE_ARTIFACT_BYTES
}

/// The finding for a large artifact: it names the artifact and its size in
/// millions of bytes.
pub open spec fn large_artifact_issue(path: Seq<char>, size: u64) -> IssueModel {
    IssueModel {
        category: "Performance"@,
        description: "Artifact grande detectado: "@ + path + " ("@ + decimal((size / 1_000_000) as nat)
            + " MB)"@,
        severity: IssueSeverity::Critical,
        file: Some(path),
        line: None,
    }
}

/// The suggestion for a large artifact.
pub open spec fn large_artifact_suggestion(path: Seq<char>) -> SuggestionModel {
    SuggestionModel {
        description: "Considerar optimizar el tamaño de "@ + path,
        impact: OptimizationImpact::High,
        effort: OptimizationEffort::Medium,
        file: Some(path),
        line: None,
    }
}

/// What the analysis of a list of artifacts reports.
pub open spec fn artifact_report(artifacts: Seq<ArtifactInfo>) -> AnalysisModel {
    AnalysisModel {
        issues: artifact_issues(artifacts),
        optimizations: Seq::empty(),
        suggestions: artifact_suggestions(artifacts),
        metrics: seq![
            MetricModel { name: "artifacts_count"@, value: whole(artifacts.len() as usize) },
        ],
        total_lines: 0,
        files_count: artifacts.len() as usize,
    }
}

impl ProjectAnalysis {
    /// Some finding is critical.
    pub open spec fn spec_has_critical_issues(&self) -> bool {
        exists|i: int| 0 <= i < self.issues@.len() && (#[trigger] self.issues@[i]).spec_is_critical()
    }

    /// Whether some finding is critical.
    pub fn has_critical_issues(&self) -> (r: bool)
        ensures
            r == self.spec_has_critical_issues(),
    {
        let mut i: usize = 0;
        while i < self.issues.len()
            invariant
                i <= self.issues.len(),
                forall|j: int| 0 <= j < i ==> !(#[trigger] self.issues@[j]).spec_is_critical(),
            decreases self.issues.len() - i,
        {
            if self.issues[i].is_critical() {
                return true;
            }
            i = i + 1;
        }
        false
    }

    /// Whether the analysis lists optimisations.
    pub fn has_optimizations(&self) -> (r: bool)
        ensures
            r == (self.optimizations@.len() > 0),
    {
        self.optimizations.len() > 0
    }

    /// The number of critical findings.
    pub fn critical_count(&self) -> (r: usize)
        ensures
            r as nat == count_critical(self.issues@),
    {
        let mut i: usize = 0;
        let mut count: usize = 0;
        proof {
            assert(self.issues@.take(0) =~= Seq::<AnalysisIssue>::empty());
        }
        while i < self.issues.len()
            invariant
                i <= self.issues.len(),
                count <= i,
                count as nat == count_critical(self.issues@.take(i as int)),
            decreases self.issues.len() - i,
        {
            proof {
                assert(self.issues@.take(i + 1).drop_last() =~= self.issues@.take(i as int));
            }
            if self.issues[i].is_critical() {
                count = count + 1;
            }
            i = i + 1;
        }
        proof {
            assert(self.issues@.take(self.issues.len() as int) =~= self.issues@);
        }
        count
    }
}

/// The number of critical findings among `issues`.
pub open spec fn count_critical(issues: Seq<AnalysisIssue>) -> nat
    decreases issues.len(),
{
    if issues.len() == 0 {
        0
    } else {
        count_critical(issues.drop_last()) + if issues.last().spec_is_critical() {
            1nat
        } else {
            0nat
        }
    }
}

/// The totals of a list of per-file results.
pub struct Totals {
    pub lines: usize,
    pub issues: Vec<AnalysisIssue>,
    pub suggestions: Vec<OptimizationSuggestion>,
}

/// Appending to a vector appends to its deep view.
proof fn lemma_deep_view_append<T: DeepView>(before: Seq<T>, added: Seq<T>, after: Seq<T>)
    requires
        after == before + added,
    ensures
        Seq::new(after.len(), |i: int| after[i].deep_view()) == Seq::new(
            before.len(),
            |i: int| before[i].deep_view(),
        ) + Seq::new(added.len(), |i: int| added[i].deep_view()),
{
    assert(Seq::new(after.len(), |i: int| after[i].deep_view()) =~= Seq::new(
        before.len(),
        |i: int| before[i].deep_view(),
    ) + Seq::new(added.len(), |i: int| added[i].deep_view()));
}

/// Adds up the lines of the results, capped at the largest `usize`, and
/// concatenates their findings and suggestions in the order of the results.
pub fn aggregate(results: Vec<FileAnalysisResult>) -> (r: Totals)
    ensures
        r.lines as nat == saturate(sum_lines(results@)),
        r.issues.deep_view() == all_issues(results@),
        r.suggestions.deep_view() == all_suggestions(results@),
{
    let ghost src = results@;
    let mut lines: usize = 0;
    let mut issues: Vec<AnalysisIssue> = Vec::new();
    let mut suggestions: Vec<OptimizationSuggestion> = Vec::new();
    proof {
        assert(src.take(0) =~= Seq::<FileAnalysisResult>::empty());
        assert(issues.deep_view() =~= Seq::<IssueModel>::empty());
        assert(suggestions.deep_view() =~= Seq::<SuggestionModel>::empty());
    }
    for result in it: results
        invariant
            it.seq() == src,
            lines as nat == saturate(sum_lines(src.take(it.index() as int))),
            issues.deep_view() == all_issues(src.take(it.index() as int)),
            suggestions.deep_view() == all_suggestions(src.take(it.index() as int)),
    {
        let ghost i = it.index() as int;
        let mut result = result;
        proof {
            assert(src.take(i + 1).drop_last() =~= src.take(i));
            assert(src.take(i + 1).last() == result);
        }
        lines = lines.saturating_add(result.lines);
        let ghost issues_before = issues@;
        let ghost added_issues = result.issues@;
        issues.append(&mut result.issues);
        let ghost suggestions_before = suggestions@;
        let ghost added_suggestions = result.suggestions@;
        suggestions.append(&mut result.suggestions);
        proof {
            lemma_deep_view_append(issues_before, added_issues, issues@);
            lemma_deep_view_append(suggestions_before, added_suggestions, suggestions@);
        }
    }
    proof {
        assert(src.take(src.len() as int) =~= src);
    }
    Totals { lines, issues, suggestions }
}

/// The chunked unit count for a number of files: one hundred units per
/// file, capped at the largest `usize`.
pub open spec fn units_of(files: nat) -> nat {
    saturate(UNITS_PER_FILE as nat * files)
}

/// The units of one chunk of the chunked unit count: the sum of its items,
/// capped at the largest `usize`.
pub open spec fn chunk_units(chunk: Seq<usize>) -> nat
    decreases chunk.len(),
{
    if chunk.len() == 0 {
        0
    } else {
        saturate(chunk_units(chunk.drop_last()) + chunk.last() as nat)
    }
}

/// Adds up one chunk of the chunked unit count.
pub fn count_chunk_units(chunk: &[usize]) -> (r: Vec<usize>)
    ensures
        r@ == seq![chunk_units(chunk@) as usize],
{
    let mut total: usize = 0;
    let mut i: usize = 0;
    proof {
        assert(chunk@.take(0) =~= Seq::<usize>::empty());
    }
    while i < chunk.len()
        invariant
            i <= chunk.len(),
            total as nat == chunk_units(chunk@.take(i as int)),
        decreases chunk.len() - i,
    {
        proof {
            assert(chunk@.take(i + 1).drop_last() =~= chunk@.take(i as int));
        }
        total = total.saturating_add(chunk[i]);
        i = i + 1;
    }
    proof {
        assert(chunk@.take(chunk.len() as int) =~= chunk@);
    }
    let mut out: Vec<usize> = Vec::new();
    out.push(total);
    assert(out@ =~= seq![chunk_units(chunk@) as usize]);
    out
}

/// Runs the chunked unit count for `files_count` files: one hundred units
/// per file, added up batch by batch under the dispatch configuration.
///
/// The count is owed wherever the batches are processed in the calling
/// thread; it fails only where they go to the worker pool and the pool
/// cannot be started.
pub fn count_units(files_count: usize, config: &PerformanceConfig) -> (r: Result<
    usize,
    DispatchError,
>)
    requires
        config.batch_size > 0,
    ensures
        match r {
            Ok(units) => units as nat == units_of(files_count as nat),
            Err(e) => e == DispatchError::PoolUnavailable && chunked_mode_for(
                files_count as nat,
                config.batch_size as nat,
                config.parallel_threshold as nat,
            ) == DispatchMode::Parallel,
        },
{
    let mut sizes: Vec<usize> = Vec::new();
    let mut i: usize = 0;
    while i < files_count
        invariant
            i <= files_count,
            sizes.len() == i,
            forall|j: int| 0 <= j < i ==> sizes@[j] == UNITS_PER_FILE,
        decreases files_count - i,
    {
        sizes.push(UNITS_PER_FILE);
        i = i + 1;
    }
    let ghost all = sizes@;
    match chunked_parallel_process(sizes, count_chunk_units, config) {
        Ok(per_batch) => {
            let total = count_chunk_units(per_batch.as_slice());
            proof {
                lemma_units_add_up(all, config.batch_size as nat, per_batch@);
            }
            Ok(total[0])
        },
        Err(e) => Err(e),
    }
}

/// The units of a sequence in which every item is one hundred.
pub proof fn lemma_uniform_units(chunk: Seq<usize>)
    requires
        forall|j: int| 0 <= j < chunk.len() ==> chunk[j] == UNITS_PER_FILE,
    ensures
        chunk_units(chunk) == units_of(chunk.len()),
    decreases chunk.len(),
{
    if chunk.len() > 0 {
        lemma_uniform_units(chunk.drop_last());
        assert(UNITS_PER_FILE * (chunk.len() - 1) + UNITS_PER_FILE == UNITS_PER_FILE * chunk.len())
            by (nonlinear_arith);
    }
}

/// The number of items in the first `k` batches of `len` items.
pub open spec fn batched_prefix(len: nat, batch_size: nat, k: nat) -> nat {
    if k * batch_size < len {
        k * batch_size
    } else {
        len
    }
}

/// Adding up the per-batch units of uniform items gives the units of all
/// items.
pub proof fn lemma_units_add_up(items: Seq<usize>, batch_size: nat, per_batch: Seq<usize>)
    requires
        batch_size > 0,
        forall|j: int| 0 <= j < items.len() ==> items[j] == UNITS_PER_FILE,
        is_chunk_mapped(count_chunk_units, items, batch_size, per_batch),
    ensures
        chunk_units(per_batch) == units_of(items.len()),
{
    let parts = choose|parts: Seq<Seq<usize>>| #[trigger]
        is_mapped_by_batch(count_chunk_units, items, batch_size, parts) && per_batch
            == parts.flatten();
    let count = batch_count(items.len(), batch_size);
    assert forall|k: int| 0 <= k < count implies #[trigger] parts[k] == seq![
        units_of(batch_of(items, batch_size, k).len()) as usize,
    ] by {
        let batch = batch_of(items, batch_size, k);
        assert(is_batch_output(count_chunk_units, batch, parts[k]));
        let (chunk, produced) = choose|chunk: &[usize], produced: Vec<usize>|
            chunk@ == batch && produced@ == parts[k] && #[trigger] call_ensures(
                count_chunk_units,
                (chunk,),
                produced,
            );
        lemma_batch_starts_inside(items.len(), batch_size, k as nat);
        assert((k + 1) * batch_size == k * batch_size + batch_size) by (nonlinear_arith);
        lemma_uniform_units(batch);
    }
    lemma_flatten_singletons(parts, per_batch, items, batch_size, count);
}

/// The per-batch units, added up over the first `upto` batches, give the
/// units of the items in those batches.
proof fn lemma_flatten_singletons(
    parts: Seq<Seq<usize>>,
    per_batch: Seq<usize>,
    items: Seq<usize>,
    batch_size: nat,
    count: nat,
)
    requires
        batch_size > 0,
        count == batch_count(items.len(), batch_size),
        parts.len() == count,
        per_batch == parts.flatten(),
        forall|k: int|
            0 <= k < count ==> #[trigger] parts[k] == seq![
                units_of(batch_of(items, batch_size, k).len()) as usize,
            ],
    ensures
        chunk_units(per_batch) == units_of(items.len()),
{
    lemma_singletons_flatten(parts);
    assert(per_batch.len() == count);
    lemma_prefix_units(parts, per_batch, items, batch_size, count, count);
    assert(per_batch.take(count as int) =~= per_batch);
    lemma_batch_count_covers(items.len(), batch_size);
}

/// A sequence of one-item sequences flattens to the sequence of the items.
proof fn lemma_singletons_flatten(parts: Seq<Seq<usize>>)
    requires
        forall|k: int| 0 <= k < parts.len() ==> (#[trigger] parts[k]).len() == 1,
    ensures
        parts.flatten().len() == parts.len(),
        forall|k: int| 0 <= k < parts.len() ==> #[trigger] parts.flatten()[k] == parts[k][0],
    decreases parts.len(),
{
    parts.lemma_flatten_and_flatten_alt_are_equivalent();
    if parts.len() > 0 {
        let init = parts.drop_last();
        assert forall|k: int| 0 <= k < init.len() implies (#[trigger] init[k]).len() == 1 by {
            assert(init[k] == parts[k]);
        }
        lemma_singletons_flatten(init);
        init.lemma_flatten_and_flatten_alt_are_equivalent();
        assert(parts.flatten_alt() == init.flatten_alt() + parts.last());
        assert forall|k: int| 0 <= k < parts.len() implies #[trigger] parts.flatten()[k] == parts[k][0] by {
            if k < init.len() {
                assert(init[k] == parts[k]);
                assert(parts.flatten()[k] == init.flatten()[k]);
            }
        }
    }
}

/// The units of the first `upto` per-batch sums.
proof fn lemma_prefix_units(
    parts: Seq<Seq<usize>>,
    per_batch: Seq<usize>,
    items: Seq<usize>,
    batch_size: nat,
    count: nat,
    upto: nat,
)
    requires
        batch_size > 0,
        count == batch_count(items.len(), batch_size),
        parts.len() == count,
        per_batch.len() == count,
        upto <= count,
        forall|k: int| 0 <= k < count ==> #[trigger] per_batch[k] == parts[k][0],
        forall|k: int|
            0 <= k < count ==> #[trigger] parts[k] == seq![
                units_of(batch_of(items, batch_size, k).len()) as usize,
            ],
    ensures
        chunk_units(per_batch.take(upto as int)) == units_of(batched_prefix(items.len(), batch_size, upto)),
    decreases upto,
{
    if upto == 0 {
        assert(per_batch.take(0) =~= Seq::<usize>::empty());
        assert(0 * batch_size == 0) by (nonlinear_arith);
    } else {
        let k = (upto - 1) as nat;
        lemma_prefix_units(parts, per_batch, items, batch_size, count, k);
        let prefix = per_batch.take(upto as int);
        assert(prefix.drop_last() =~= per_batch.take(k as int));
        assert(prefix.last() == per_batch[k as int]);
        assert(per_batch[k as int] == parts[k as int][0]);
        lemma_batch_starts_inside(items.len(), batch_size, k);
        assert((k + 1) * batch_size == k * batch_size + batch_size) by (nonlinear_arith);
        let before = batched_prefix(items.len(), batch_size, k);
        let after = batched_prefix(items.len(), batch_size, upto);
        let size = batch_of(items, batch_size, k as int).len();
        assert(after == before + size);
        assert(UNITS_PER_FILE * after == UNITS_PER_FILE * before + UNITS_PER_FILE * size)
            by (nonlinear_arith)
            requires
                after == before + size,
        ;
    }
}

/// All batches together hold all items.
proof fn lemma_batch_count_covers(len: nat, batch_size: nat)
    requires
        batch_size > 0,
    ensures
        batched_prefix(len, batch_size, batch_count(len, batch_size)) == len,
{
    let q = len / batch_size;
    let r = len % batch_size;
    assert(len == q * batch_size + r && 0 <= r < batch_size) by (nonlinear_arith)
        requires
            batch_size > 0,
            q == len / batch_size,
            r == len % batch_size,
    ;
    if r > 0 {
        assert((q + 1) * batch_size >= len) by (nonlinear_arith)
            requires
                len == q * batch_size + r,
                r < batch_size,
        ;
    }
}

/// The analysis orchestrator. It owns the dispatch configuration, the
/// session cache and the metrics recorder of one session.
#[derive(Debug)]
pub struct ProjectAnalyzer {
    perf_config: PerformanceConfig,
    cache: IntelligentCache<ProjectAnalysis>,
    metrics: MetricsCollector,
}

impl ProjectAnalyzer {
    /// The dispatch configuration.
    pub closed spec fn config(&self) -> PerformanceConfig {
        self.perf_config
    }

    /// The state of the session cache.
    pub closed spec fn cache(&self) -> CacheModel<ProjectAnalysis> {
        self.cache@
    }

    /// The metrics recorder.
    pub closed spec fn recorder(&self) -> MetricsCollector {
        self.metrics
    }

    /// The analyzer is in a state that its operations preserve.
    pub open spec fn wf(&self) -> bool {
        self.cache().wf()
    }

    /// An analyzer with the configuration tuned for this machine.
    pub fn new() -> (r: Self)
        ensures
            r.wf(),
            r.config().thread_count >= 1,
            r.config() == PerformanceConfig::baseline(r.config().thread_count as nat),
            r.config().is_positive(),
            r.cache().len() == 0,
            r.cache().hits == 0,
            r.cache().misses == 0,
            r.recorder().records().len() == 0,
            r.recorder().pending() is None,
    {
        Self::with_config(PerformanceConfig::auto_tune())
    }

    /// An analyzer with the given configuration, an empty session cache and
    /// no metrics.
    pub fn with_config(perf_config: PerformanceConfig) -> (r: Self)
        ensures
            r.wf(),
            r.config() == perf_config,
            r.cache().len() == 0,
            r.cache().hits == 0,
            r.cache().misses == 0,
            r.recorder().records().len() == 0,
            r.recorder().pending() is None,
    {
        ProjectAnalyzer {
            perf_config,
            cache: IntelligentCache::new(SESSION_CACHE_SIZE),
            metrics: MetricsCollector::new(),
        }
    }

    /// The dispatch configuration as it stands.
    pub fn performance_config(&self) -> (r: PerformanceConfig)
        ensures
            r == self.config(),
    {
        self.perf_config
    }

    /// The hit rate of the session cache.
    pub fn cache_hit_rate(&self) -> (r: Ratio)
        requires
            self.wf(),
        ensures
            r == self.cache().hit_rate(),
    {
        self.cache.hit_rate()
    }

    /// The metrics recorded so far.
    pub fn metrics(&self) -> (r: &MetricsCollector)
        ensures
            *r == self.recorder(),
    {
        &self.metrics
    }

    /// Analyses a project.
    ///
    /// `path_key` identifies the project in the session cache. Where the
    /// cache holds an analysis under that key, a clone of it is returned
    /// and nothing else happens: the files are not listed and no file is
    /// analysed.
    ///
    /// Otherwise `list_files` lists the files and `per_file` analyses every
    /// file, in the calling thread or on the worker pool as the effective
    /// threshold of the current configuration decides. The results are
    /// added up, the run is recorded, the analysis is stored in the
    /// session cache and the configuration is adjusted to the average
    /// duration of the recorded runs. The analysis fails only where work
    /// goes to the worker pool and the pool cannot be started; the failure
    /// is recorded and nothing is stored. An analysis that needs no pool
    /// always succeeds.
    ///
    /// Nothing is asked of the configuration or of the two functions where
    /// the analysis comes from the session cache.
    pub fn analyze_project<P, L, F>(&mut self, path_key: String, list_files: L, per_file: F) -> (r:
        Result<ProjectAnalysis, AnalysisError>) where
        P: Send,
        L: FnOnce() -> Vec<P>,
        F: Fn(P) -> FileAnalysisResult + Sync + Send + Copy,

        requires
            old(self).wf(),
            analysis_demands(*old(self), path_key@, list_files, per_file),
        ensures
            final(self).wf(),
            is_analysis_step(*old(self), *final(self), path_key@, list_files, per_file, r),
    {
        let ghost before = self.cache@;
        match self.cache.get(path_key.as_str()) {
            Some(cached) => {
                return Ok(cached);
            },
            None => {},
        }
        let ghost missed = self.cache@;
        self.metrics.start_operation(String::from_str("project_analysis"));
        let files = list_files();
        let ghost listed = files;
        let files_count = files.len();
        let results = match parallel_process(files, per_file, &self.perf_config) {
            Ok(results) => results,
            Err(_) => {
                self.metrics.end_operation(false);
                return Err(AnalysisError::DispatchFailed);
            },
        };
        let ghost mapped = results@;
        let totals = aggregate(results);
        let hit_rate = self.cache.hit_rate();
        let mut metrics: Vec<Metric> = Vec::new();
        metrics.push(
            Metric {
                name: String::from_str("rust_files"),
                value: Ratio { numerator: files_count as u64, denominator: 1 },
            },
        );
        metrics.push(
            Metric {
                name: String::from_str("avg_lines_per_file"),
                value: if files_count > 0 {
                    Ratio { numerator: totals.lines as u64, denominator: files_count as u64 }
                } else {
                    Ratio { numerator: 0, denominator: 1 }
                },
            },
        );
        metrics.push(Metric { name: String::from_str("cache_efficiency"), value: hit_rate });
        let refresh = Ratio { numerator: 6, denominator: 10 };
        let ghost mut cleared_at: u128 = 0;
        if hit_rate.is_below(&refresh) {
            let ghost unswept = self.cache@;
            self.cache.clear_expired(STALE_AFTER_NANOS);
            proof {
                cleared_at = choose|now: u128|
                    self.cache@ == unswept.after_clear_expired(STALE_AFTER_NANOS as nat, now as nat);
            }
        }
        assert(self.cache@ == cache_after_miss(before, path_key@, cleared_at));
        if files_count > CHUNKED_COUNT_FROM {
            let units = match count_units(files_count, &self.perf_config) {
                Ok(units) => units,
                Err(_) => {
                    self.metrics.end_operation(false);
                    return Err(AnalysisError::DispatchFailed);
                },
            };
            metrics.push(
                Metric {
                    name: String::from_str("parallel_processed_units"),
                    value: Ratio { numerator: units as u64, denominator: 1 },
                },
            );
        }
        self.metrics.end_operation(true);
        let analysis = ProjectAnalysis {
            issues: totals.issues,
            optimizations: Vec::new(),
            suggestions: totals.suggestions,
            metrics,
            total_lines: totals.lines,
            files_count,
        };
        proof {
            let expected = project_report(
                mapped,
                missed.hit_rate(),
                units_of(mapped.len()) as usize,
            );
            assert(analysis.metrics.deep_view() =~= expected.metrics);
            assert(analysis.optimizations.deep_view() =~= Seq::<SuggestionModel>::empty());
            assert(analysis.deep_view() == expected);
            assert(call_ensures(list_files, (), listed));
            assert(is_mapped(per_file, listed@, mapped));
        }
        let stored = analysis.clone();
        let ghost unstored = self.cache@;
        self.cache.insert(path_key, stored);
        proof {
            let stored_at = choose|now: u128| self.cache@ == unstored.after_insert(path_key@, stored, now);
            assert(self.cache@ == cache_after_run(before, path_key@, cleared_at, stored, stored_at));
        }
        match self.metrics.average_duration() {
            Some(average) => {
                self.perf_config.adjust_for_workload((average / 1_000_000) as u128, files_count);
            },
            None => {},
        }
        Ok(analysis)
    }

    /// Analyses a list of build artifacts: every artifact whose size is
    /// known and exceeds fifty million bytes is reported as a critical
    /// finding with a suggestion. The analyzer itself is left alone.
    pub fn analyze_artifacts(&self, artifacts: &[ArtifactInfo]) -> (r: Result<
        ProjectAnalysis,
        AnalysisError,
    >)
        ensures
            r matches Ok(a) && a.deep_view() == artifact_report(artifacts@),
    {
        let mut issues: Vec<AnalysisIssue> = Vec::new();
        let mut suggestions: Vec<OptimizationSuggestion> = Vec::new();
        let mut i: usize = 0;
        proof {
            assert(artifacts@.take(0) =~= Seq::<ArtifactInfo>::empty());
            assert(issues.deep_view() =~= Seq::<IssueModel>::empty());
            assert(suggestions.deep_view() =~= Seq::<SuggestionModel>::empty());
        }
        while i < artifacts.len()
            invariant
                i <= artifacts.len(),
                issues.deep_view() == artifact_issues(artifacts@.take(i as int)),
                suggestions.deep_view() == artifact_suggestions(artifacts@.take(i as int)),
            decreases artifacts.len() - i,
        {
            proof {
                assert(artifacts@.take(i + 1).drop_last() =~= artifacts@.take(i as int));
            }
            let artifact = &artifacts[i];
            match artifact.size {
                Some(size) => {
                    if size > LARGE_ARTIFACT_BYTES {
                        let path = artifact.path.as_str();
                        let mut description = String::from_str("Artifact grande detectado: ").concat(
                            path,
                        ).concat(" (");
                        push_decimal(&mut description, size / 1_000_000);
                        description.append(" MB)");
                        let ghost issues_before = issues.deep_view();
                        issues.push(
                            AnalysisIssue {
                                category: String::from_str("Performance"),
                                description,
                                severity: IssueSeverity::Critical,
                                file: Some(String::from_str(path)),
                                line: None,
                            },
                        );
                        let ghost suggestions_before = suggestions.deep_view();
                        suggestions.push(
                            OptimizationSuggestion {
                                description: String::from_str(
                                    "Considerar optimizar el tamaño de ",
                                ).concat(path),
                                impact: OptimizationImpact::High,
                                effort: OptimizationEffort::Medium,
                                file: Some(String::from_str(path)),
                                line: None,
                            },
                        );
                        proof {
                            assert(issues.deep_view() =~= issues_before.push(
                                large_artifact_issue(artifact.path@, size),
                            ));
                            assert(suggestions.deep_view() =~= suggestions_before.push(
                                large_artifact_suggestion(artifact.path@),
                            ));
                        }
                    }
                },
                None => {},
            }
            i = i + 1;
        }
        proof {
            assert(artifacts@.take(artifacts.len() as int) =~= artifacts@);
        }
        let mut metrics: Vec<Metric> = Vec::new();
        metrics.push(
            Metric {
                name: String::from_str("artifacts_count"),
                value: Ratio { numerator: artifacts.len() as u64, denominator: 1 },
            },
        );
        let analysis = ProjectAnalysis {
            issues,
            optimizations: Vec::new(),
            suggestions,
            metrics,
            total_lines: 0,
            files_count: artifacts.len(),
        };
        proof {
            assert(analysis.metrics.deep_view() =~= artifact_report(artifacts@).metrics);
            assert(analysis.optimizations.deep_view() =~= Seq::<SuggestionModel>::empty());
        }
        Ok(analysis)
    }
}

/// What an analysis of the project `path_key` asks for: nothing where the
/// session cache of `before` holds the project; otherwise at least one
/// thread, a positive batch size, a listing that can be made and a per-file
/// function that accepts every listed file.
pub open spec fn analysis_demands<P, L: FnOnce() -> Vec<P>, F: Fn(P) -> FileAnalysisResult>(
    before: ProjectAnalyzer,
    path_key: Seq<char>,
    list_files: L,
    per_file: F,
) -> bool {
    !before.cache().contains_key(path_key) ==> {
        &&& before.config().thread_count > 0
        &&& before.config().batch_size > 0
        &&& call_requires(list_files, ())
        &&& forall|files: Vec<P>|
            call_ensures(list_files, (), files) ==> accepts_all(per_file, files@)
    }
}

/// An analysis of the project `path_key` took the analyzer from `before` to
/// `after` and ended with `r`.
///
/// Where the session cache held the project, `r` is a clone of the cached
/// analysis, the lookup is counted and nothing else changed. Otherwise a
/// success is the report on the results of `per_file` for the listed files,
/// stored in the session cache, recorded, and followed by an adjustment of
/// the configuration; a failure is owed to the worker pool, recorded, and
/// leaves the configuration alone.
pub open spec fn is_analysis_step<P, L: FnOnce() -> Vec<P>, F: Fn(P) -> FileAnalysisResult>(
    before: ProjectAnalyzer,
    after: ProjectAnalyzer,
    path_key: Seq<char>,
    list_files: L,
    per_file: F,
    r: Result<ProjectAnalysis, AnalysisError>,
) -> bool {
    &&& before.cache().contains_key(path_key) ==> {
        &&& r matches Ok(a) && cloned(before.cache().entry(path_key).value, a)
        &&& after.cache() == before.cache().after_get(path_key)
        &&& after.config() == before.config()
        &&& after.recorder() == before.recorder()
    }
    &&& !before.cache().contains_key(path_key) ==> match r {
        Ok(a) => {
            &&& exists|files: Vec<P>, results: Seq<FileAnalysisResult>|
                {
                    &&& #[trigger] call_ensures(list_files, (), files)
                    &&& #[trigger] is_mapped(per_file, files@, results)
                    &&& a.deep_view() == project_report(
                        results,
                        before.cache().after_get(path_key).hit_rate(),
                        units_of(results.len()) as usize,
                    )
                }
            &&& exists|cleared_at: u128, stored: ProjectAnalysis, stored_at: u128|
                cloned(a, stored) && after.cache() == #[trigger] cache_after_run(
                    before.cache(),
                    path_key,
                    cleared_at,
                    stored,
                    stored_at,
                )
            &&& recorded_run(
                before.recorder().records(),
                after.recorder().records(),
                true,
            )
            &&& after.config() == before.config().adjusted(
                average_millis(after.recorder().records()),
                a.files_count as nat,
            )
        },
        Err(e) => {
            &&& e == AnalysisError::DispatchFailed
            &&& exists|files: Vec<P>| #[trigger]
                call_ensures(list_files, (), files) && needs_pool(
                    files@.len(),
                    before.config(),
                )
            &&& after.cache() == before.cache().after_get(path_key) || exists|
                cleared_at: u128,
            |
                after.cache() == #[trigger] cache_after_miss(
                    before.cache(),
                    path_key,
                    cleared_at,
                )
            &&& recorded_run(
                before.recorder().records(),
                after.recorder().records(),
                false,
            )
            &&& after.config() == before.config()
        },
    }
}

} // verus!
