//! The analyze command: which dispatch configuration a profile stands for,
//! when a summary from the on-disk cache may be used instead of a fresh
//! analysis, and what is written to that cache afterwards.

use vstd::prelude::*;
use vstd::string::StringExecFns;
use crate::engine::analyzer::FileAnalysisResult;
use crate::engine::project::{
    analysis_demands, is_analysis_step, AnalysisError, ProjectAnalysis, ProjectAnalyzer,
};
use crate::fingerprint::{fingerprint, fingerprint_of, FileStamp, StampModel};
use crate::performance_patterns::config::PerformanceConfig;
use crate::text::{decimal, push_decimal};

verus! {

/// Age in seconds from which a cached summary is no longer used: one hour.
pub const CACHE_TTL_SECS: u64 = 3600;

/// The options of the analyze command.
#[derive(Clone, Debug, Default)]
pub struct AnalyzeCommand {
    /// Analyze performance bottlenecks.
    pub performance: bool,
    /// Analyze security issues.
    pub security: bool,
    /// Analyze code quality.
    pub quality: bool,
    /// Generate a detailed report.
    pub report: bool,
    /// The profile of the analysis: fast, balanced or deep.
    pub profile: Option<String>,
    /// Ignore the cached summary.
    pub force_refresh: bool,
    /// Where to write the full result, if anywhere.
    pub output: Option<String>,
}

/// The profiles of an analysis.
#[derive(Clone, Copy, Debug, PartialEq, Eq)]
pub enum AnalysisProfile {
    Fast,
    Balanced,
    Deep,
    Default,
}

/// What is kept of an analysis in the on-disk cache.
#[derive(Clone, Debug, PartialEq, Eq)]
pub struct CacheSummary {
    pub summary: String,
    pub issues_count: usize,
    pub files_count: usize,
    pub lines: usize,
    pub profile: String,
}

/// The mathematical counterpart of a `CacheSummary`.
pub struct SummaryModel {
    pub summary: Seq<char>,
    pub issues_count: usize,
    pub files_count: usize,
    pub lines: usize,
    pub profile: Seq<char>,
}

impl DeepView for CacheSummary {
    type V = SummaryModel;

    open spec fn deep_view(&self) -> SummaryModel {
        SummaryModel {
            summary: self.summary@,
            issues_count: self.issues_count,
            files_count: self.files_count,
            lines: self.lines,
            profile: self.profile@,
        }
    }
}

/// How a run of the analyze command ended.
#[derive(Clone, Debug)]
pub enum AnalysisRun {
    /// A summary from the on-disk cache was used; nothing was analysed.
    Cached(CacheSummary),
    /// The project was analysed; the summary is to be stored.
    Analyzed { analysis: ProjectAnalysis, summary: CacheSummary },
    /// The analysis failed.
    Failed(AnalysisError),
}

/// What the on-disk cache holds under a file name: the age of the file in
/// seconds, where there is one and its age can be told, and the summary in
/// it, where it can be read.
#[derive(Clone, Debug)]
pub struct StoredEntry {
    pub age_secs: Option<u64>,
    pub summary: Option<CacheSummary>,
}

impl StoredEntry {
    /// The summary that a run without a forced refresh takes from this
    /// entry: the stored one while it is fresh.
    pub open spec fn usable(self) -> Option<CacheSummary> {
        usable_summary(false, self.age_secs, self.summary)
    }
}

/// The outcome of a run of the analyze command.
#[derive(Debug)]
pub struct RunReport {
    /// The name of the cache file of the workspace.
    pub cache_file: String,
    /// How the run ended.
    pub run: AnalysisRun,
}

/// The name of the cache file of a workspace with the given files.
pub open spec fn cache_file_of(stamps: Seq<StampModel>) -> Seq<char> {
    cache_file_name_of(fingerprint_of(stamps))
}

/// The name of a profile, where one is given.
pub open spec fn profile_view(profile: Option<&str>) -> Option<Seq<char>> {
    match profile {
        Some(name) => Some(name@),
        None => None,
    }
}

/// `run` is the outcome of an analysis that took the analyzer from `before`
/// to `after`: the analysis with the summary that is to be stored, or its
/// failure.
pub open spec fn is_fresh_run<P, L: FnOnce() -> Vec<P>, F: Fn(P) -> FileAnalysisResult>(
    before: ProjectAnalyzer,
    after: ProjectAnalyzer,
    path_key: Seq<char>,
    list_files: L,
    per_file: F,
    profile: Option<Seq<char>>,
    run: AnalysisRun,
) -> bool {
    match run {
        AnalysisRun::Cached(_) => false,
        AnalysisRun::Analyzed { analysis, summary } => {
            &&& is_analysis_step(before, after, path_key, list_files, per_file, Ok(analysis))
            &&& summary.deep_view() == summary_of(analysis, profile)
        },
        AnalysisRun::Failed(e) => is_analysis_step(
            before,
            after,
            path_key,
            list_files,
            per_file,
            Err(e),
        ),
    }
}

/// The profile that a name stands for: `fast`, `balanced` and `deep` name
/// their profiles, every other name the default profile.
pub open spec fn profile_named(name: Seq<char>) -> AnalysisProfile {
    if name == "fast"@ {
        AnalysisProfile::Fast
    } else if name == "balanced"@ {
        AnalysisProfile::Balanced
    } else if name == "deep"@ {
        AnalysisProfile::Deep
    } else {
        AnalysisProfile::Default
    }
}

/// The configuration of the fast profile.
pub open spec fn fast_config() -> PerformanceConfig {
    PerformanceConfig {
        thread_count: 2,
        cache_size: 200,
        batch_size: 50,
        timeout_ms: 2000,
        parallel_threshold: 20,
    }
}

/// The configuration of the balanced profile.
pub open spec fn balanced_config() -> PerformanceConfig {
    PerformanceConfig {
        thread_count: 4,
        cache_size: 400,
        batch_size: 100,
        timeout_ms: 3000,
        parallel_threshold: 30,
    }
}

/// `config` is a configuration of `profile`. The fast and the balanced
/// profile have one configuration each; the deep profile has the tuned
/// configuration of the machine's core count, the default profile the
/// default configuration with one thread per core.
pub open spec fn is_config_of(profile: AnalysisProfile, config: PerformanceConfig) -> bool {
    match profile {
        AnalysisProfile::Fast => config == fast_config(),
        AnalysisProfile::Balanced => config == balanced_config(),
        AnalysisProfile::Deep => config.thread_count >= 1 && config == PerformanceConfig::baseline(
            config.thread_count as nat,
        ),
        AnalysisProfile::Default => config.thread_count >= 1 && config == (PerformanceConfig {
            thread_count: config.thread_count,
            cache_size: 1000,
            batch_size: 100,
            timeout_ms: 5000,
            parallel_threshold: 50,
        }),
    }
}

/// A cached summary of the given age is still fresh: its age is known and
/// below one hour.
pub open spec fn is_fresh(age_secs: Option<u64>) -> bool {
    age_secs matches Some(age) && age < CACHE_TTL_SECS
}

/// The summary that a run takes from the on-disk cache: the stored one,
/// unless a refresh is forced or the stored one is not fresh.
pub open spec fn usable_summary(
    force_refresh: bool,
    age_secs: Option<u64>,
    stored: Option<CacheSummary>,
) -> Option<CacheSummary> {
    if !force_refresh && is_fresh(age_secs) {
        stored
    } else {
        None
    }
}

/// The one-line summary of an analysis with the given figures.
pub open spec fn summary_line(issues: nat, suggestions: nat, lines: nat, files: nat) -> Seq<char> {
    "issues:"@ + decimal(issues) + " suggestions:"@ + decimal(suggestions) + " lines:"@ + decimal(
        lines,
    ) + " files:"@ + decimal(files)
}

/// The name under which a run is summarised: the given profile name, or
/// `default` where none was given.
pub open spec fn profile_label(profile: Option<Seq<char>>) -> Seq<char> {
    match profile {
        Some(name) => name,
        None => "default"@,
    }
}

/// What is kept of `analysis` in the on-disk cache.
pub open spec fn summary_of(analysis: ProjectAnalysis, profile: Option<Seq<char>>) -> SummaryModel {
    SummaryModel {
        summary: summary_line(
            analysis.issues@.len(),
            analysis.suggestions@.len(),
            analysis.total_lines as nat,
            analysis.files_count as nat,
        ),
        issues_count: analysis.issues@.len() as usize,
        files_count: analysis.files_count,
        lines: analysis.total_lines,
        profile: profile_label(profile),
    }
}

/// The name of the cache file for a fingerprint.
pub open spec fn cache_file_name_of(fingerprint: Seq<char>) -> Seq<char> {
    "analyze_"@ + fingerprint + ".json"@
}

/// The profile that `name` stands for.
pub fn parse_profile(name: &str) -> (r: AnalysisProfile)
    ensures
        r == profile_named(name@),
{
    let given = String::from_str(name);
    if given == String::from_str("fast") {
        AnalysisProfile::Fast
    } else if given == String::from_str("balanced") {
        AnalysisProfile::Balanced
    } else if given == String::from_str("deep") {
        AnalysisProfile::Deep
    } else {
        AnalysisProfile::Default
    }
}

/// The dispatch configuration of a profile.
pub fn config_for_profile(profile: AnalysisProfile) -> (r: PerformanceConfig)
    ensures
        is_config_of(profile, r),
{
    match profile {
        AnalysisProfile::Fast => PerformanceConfig {
            thread_count: 2,
            cache_size: 200,
            batch_size: 50,
            timeout_ms: 2000,
            parallel_threshold: 20,
        },
        AnalysisProfile::Balanced => PerformanceConfig {
            thread_count: 4,
            cache_size: 400,
            batch_size: 100,
            timeout_ms: 3000,
            parallel_threshold: 30,
        },
        AnalysisProfile::Deep => PerformanceConfig::auto_tune(),
        AnalysisProfile::Default => PerformanceConfig::default(),
    }
}

/// Whether a cached summary of the given age is still fresh.
pub fn cache_is_fresh(age_secs: Option<u64>) -> (r: bool)
    ensures
        r == is_fresh(age_secs),
{
    match age_secs {
        Some(age) => age < CACHE_TTL_SECS,
        None => false,
    }
}

/// The summary that a run takes from the on-disk cache, if any.
///
/// `age_secs` is the age of the cache file, where there is one and its age
/// can be told; `stored` is what the file holds, where it can be read.
pub fn cached_summary(
    force_refresh: bool,
    age_secs: Option<u64>,
    stored: Option<CacheSummary>,
) -> (r: Option<CacheSummary>)
    ensures
        r == usable_summary(force_refresh, age_secs, stored),
{
    if !force_refresh && cache_is_fresh(age_secs) {
        stored
    } else {
        None
    }
}

/// The name of the cache file for a fingerprint.
pub fn cache_file_name(fingerprint: &str) -> (r: String)
    ensures
        r@ == cache_file_name_of(fingerprint@),
{
    String::from_str("analyze_").concat(fingerprint).concat(".json")
}

/// What is kept of `analysis` in the on-disk cache.
pub fn summarize(analysis: &ProjectAnalysis, profile: Option<&str>) -> (r: CacheSummary)
    ensures
        r.deep_view() == summary_of(
            *analysis,
            match profile {
                Some(name) => Some(name@),
                None => None,
            },
        ),
{
    let mut summary = String::from_str("issues:");
    push_decimal(&mut summary, analysis.issues.len() as u64);
    summary.append(" suggestions:");
    push_decimal(&mut summary, analysis.suggestions.len() as u64);
    summary.append(" lines:");
    push_decimal(&mut summary, analysis.total_lines as u64);
    summary.append(" files:");
    push_decimal(&mut summary, analysis.files_count as u64);
    let label = match profile {
        Some(name) => String::from_str(name),
        None => String::from_str("default"),
    };
    CacheSummary {
        summary,
        issues_count: analysis.issues.len(),
        files_count: analysis.files_count,
        lines: analysis.total_lines,
        profile: label,
    }
}

impl AnalyzeCommand {
    /// The analyzer for this command: configured for the profile where one
    /// is named, tuned for this machine otherwise.
    pub fn analyzer(&self) -> (r: ProjectAnalyzer)
        ensures
            r.wf(),
            r.cache().len() == 0,
            r.recorder().records().len() == 0,
            match self.profile {
                Some(name) => is_config_of(profile_named(name@), r.config()),
                None => is_config_of(AnalysisProfile::Deep, r.config()),
            },
    {
        match &self.profile {
            Some(name) => ProjectAnalyzer::with_config(
                config_for_profile(parse_profile(name.as_str())),
            ),
            None => ProjectAnalyzer::new(),
        }
    }

    /// Runs the analysis of a workspace behind the on-disk cache.
    ///
    /// `stamps` are the files of the workspace with their modification
    /// times; their fingerprint names the cache file. Unless a refresh is
    /// forced, `lookup` is asked once what the cache holds under that name;
    /// where it holds a fresh summary, the run ends with that summary and
    /// nothing else happens: the analyzer is not touched, the files are not
    /// listed and no file is analysed. Otherwise `analyzer` analyses the
    /// project `path_key` with `list_files` and `per_file`; its analysis is
    /// returned together with the summary that is to be stored, its failure
    /// is passed on.
    ///
    /// Nothing is asked of `list_files` and `per_file` for a run that ends
    /// with a stored summary.
    pub fn run_simple<K, P, L, F>(
        analyzer: &mut ProjectAnalyzer,
        path_key: String,
        stamps: Vec<FileStamp>,
        force_refresh: bool,
        profile: Option<&str>,
        lookup: K,
        list_files: L,
        per_file: F,
    ) -> (r: RunReport) where
        K: FnOnce(String) -> StoredEntry,
        P: Send,
        L: FnOnce() -> Vec<P>,
        F: Fn(P) -> FileAnalysisResult + Sync + Send + Copy,

        requires
            old(analyzer).wf(),
            !force_refresh ==> forall|name: String|
                name@ == cache_file_of(stamps.deep_view()) ==> call_requires(lookup, (name,)),
            force_refresh ==> analysis_demands(*old(analyzer), path_key@, list_files, per_file),
            forall|name: String, found: StoredEntry|
                !force_refresh && name@ == cache_file_of(stamps.deep_view()) && call_ensures(
                    lookup,
                    (name,),
                    found,
                ) && found.usable() is None ==> analysis_demands(
                    *old(analyzer),
                    path_key@,
                    list_files,
                    per_file,
                ),
        ensures
            final(analyzer).wf(),
            r.cache_file@ == cache_file_of(stamps.deep_view()),
            force_refresh ==> is_fresh_run(
                *old(analyzer),
                *final(analyzer),
                path_key@,
                list_files,
                per_file,
                profile_view(profile),
                r.run,
            ),
            !force_refresh ==> exists|name: String, found: StoredEntry|
                {
                    &&& name@ == cache_file_of(stamps.deep_view())
                    &&& #[trigger] call_ensures(lookup, (name,), found)
                    &&& match found.usable() {
                        Some(summary) => r.run == AnalysisRun::Cached(summary) && *final(analyzer)
                            == *old(analyzer),
                        None => is_fresh_run(
                            *old(analyzer),
                            *final(analyzer),
                            path_key@,
                            list_files,
                            per_file,
                            profile_view(profile),
                            r.run,
                        ),
                    }
                },
    {
        let digest = fingerprint(stamps);
        let cache_file = cache_file_name(digest.as_str());
        if !force_refresh {
            let found = lookup(cache_file_name(digest.as_str()));
            match cached_summary(false, found.age_secs, found.summary) {
                Some(summary) => {
                    return RunReport { cache_file, run: AnalysisRun::Cached(summary) };
                },
                None => {},
            }
        }
        let run = match analyzer.analyze_project(path_key, list_files, per_file) {
            Ok(analysis) => {
                let summary = summarize(&analysis, profile);
                AnalysisRun::Analyzed { analysis, summary }
            },
            Err(e) => AnalysisRun::Failed(e),
        };
        RunReport { cache_file, run }
    }

    /// Runs the command with its own options: see `run_simple`.
    pub fn execute<K, P, L, F>(
        &self,
        analyzer: &mut ProjectAnalyzer,
        path_key: String,
        stamps: Vec<FileStamp>,
        lookup: K,
        list_files: L,
        per_file: F,
    ) -> (r: RunReport) where
        K: FnOnce(String) -> StoredEntry,
        P: Send,
        L: FnOnce() -> Vec<P>,
        F: Fn(P) -> FileAnalysisResult + Sync + Send + Copy,

        requires
            old(analyzer).wf(),
            !self.force_refresh ==> forall|name: String|
                name@ == cache_file_of(stamps.deep_view()) ==> call_requires(lookup, (name,)),
            self.force_refresh ==> analysis_demands(
                *old(analyzer),
                path_key@,
                list_files,
                per_file,
            ),
            forall|name: String, found: StoredEntry|
                !self.force_refresh && name@ == cache_file_of(stamps.deep_view()) && call_ensures(
                    lookup,
                    (name,),
                    found,
                ) && found.usable() is None ==> analysis_demands(
                    *old(analyzer),
                    path_key@,
                    list_files,
                    per_file,
                ),
        ensures
            final(analyzer).wf(),
            r.cache_file@ == cache_file_of(stamps.deep_view()),
            self.force_refresh ==> is_fresh_run(
                *old(analyzer),
                *final(analyzer),
                path_key@,
                list_files,
                per_file,
                self.profile_name(),
                r.run,
            ),
            !self.force_refresh ==> exists|name: String, found: StoredEntry|
                {
                    &&& name@ == cache_file_of(stamps.deep_view())
                    &&& #[trigger] call_ensures(lookup, (name,), found)
                    &&& match found.usable() {
                        Some(summary) => r.run == AnalysisRun::Cached(summary) && *final(analyzer)
                            == *old(analyzer),
                        None => is_fresh_run(
                            *old(analyzer),
                            *final(analyzer),
                            path_key@,
                            list_files,
                            per_file,
                            self.profile_name(),
                            r.run,
                        ),
                    }
                },
    {
        let profile = match &self.profile {
            Some(name) => Some(name.as_str()),
            None => None,
        };
        Self::run_simple(
            analyzer,
            path_key,
            stamps,
            self.force_refresh,
            profile,
            lookup,
            list_files,
            per_file,
        )
    }

    /// The name of the profile that the command asks for, if any.
    pub open spec fn profile_name(&self) -> Option<Seq<char>> {
        match self.profile {
            Some(name) => Some(name@),
            None => None,
        }
    }
}

/// A stored summary is used as long as it is fresh and no refresh is
/// forced.
pub proof fn lemma_fresh_summary_is_used(age_secs: u64, stored: CacheSummary)
    requires
        age_secs < CACHE_TTL_SECS,
    ensures
        usable_summary(false, Some(age_secs), Some(stored)) == Some(stored),
{
}

/// Once its age has reached one hour, a stored summary is not used any
/// more, although it is still there; nor is it ever used when a refresh is
/// forced or its age cannot be told.
pub proof fn lemma_stale_summary_is_ignored(
    force_refresh: bool,
    age_secs: Option<u64>,
    stored: Option<CacheSummary>,
)
    requires
        force_refresh || age_secs is None || age_secs.unwrap() >= CACHE_TTL_SECS,
    ensures
        usable_summary(force_refresh, age_secs, stored) is None,
{
}

} // verus!
