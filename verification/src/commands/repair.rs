//! The repair command: which repair phases a run covers, how the phases
//! are named, and how their outcomes are summarised step by step.

use vstd::prelude::*;
use vstd::string::StringExecFns;
use crate::utils::ui::{StepState, StepSummary};

verus! {

/// The kinds of issues that the repair command knows.
#[derive(Clone, Copy, Debug, PartialEq, Eq, Hash, Structural)]
pub enum IssueCategory {
    Clippy,
    Format,
    Dependencies,
    Manifest,
    Documentation,
    Tests,
}

/// How serious an issue is.
#[derive(Clone, Copy, Debug, PartialEq, Eq)]
pub enum IssueSeverity {
    Critical,
    Warning,
    Info,
}

/// An issue that a repair run found.
#[derive(Clone, Debug)]
pub struct RepairIssue {
    pub category: IssueCategory,
    pub description: String,
    pub severity: IssueSeverity,
    pub fixable: bool,
    /// The command that repairs the issue.
    pub command: String,
}

/// The outcome of repairing one issue.
#[derive(Clone, Debug)]
pub struct RepairResult {
    pub issue: RepairIssue,
    pub success: bool,
    pub message: String,
}

/// The outcome of the check that follows the repairs.
#[derive(Clone, Copy, Debug, PartialEq, Eq)]
pub struct PostCheckOutcome {
    pub success: bool,
    pub warnings: usize,
    pub errors: usize,
}

/// The options of the repair command.
#[derive(Clone, Debug)]
pub struct RepairCommand {
    /// Run all automatic repairs.
    pub auto: bool,
    /// Run the clippy fixes.
    pub clippy: bool,
    /// Run the formatter.
    pub fmt: bool,
    /// Update and fix dependencies.
    pub deps: bool,
    /// Fix issues of the manifest.
    pub manifest: bool,
    /// Clean and rebuild.
    pub clean: bool,
    /// Fix documentation issues.
    pub docs: bool,
    /// Fix test issues.
    pub tests: bool,
    /// Where to export the summary, if anywhere.
    pub export: Option<String>,
    /// Check the workspace after the repairs.
    pub check: bool,
    /// Look for outdated dependencies.
    pub outdated: bool,
    /// Show what would be fixed without fixing it.
    pub dry_run: bool,
    /// Repair without asking.
    pub force: bool,
    /// The repair level: safe, balanced or aggressive.
    pub level: Option<String>,
    /// Back up first and roll back on failure.
    pub rollback: bool,
    /// Update the lock file.
    pub update: bool,
    /// Upgrade the dependency versions.
    pub upgrade: bool,
    /// The branch to create before the repairs, if any.
    pub git_branch: Option<String>,
    /// The message to commit the repairs with, if any.
    pub git_commit: Option<String>,
}

/// The options of a repair that is started from a program.
#[derive(Clone, Debug)]
pub struct RepairOptions {
    pub auto: bool,
    pub clippy: bool,
    pub fmt: bool,
    pub deps: bool,
    pub dry_run: bool,
    pub no_jarvix: bool,
    pub level: Option<String>,
    pub rollback: bool,
    pub update: bool,
    pub upgrade: bool,
    pub git_branch: Option<String>,
    pub git_commit: Option<String>,
}

/// The phases that a repair level switches on: all, clippy, format,
/// dependencies.
pub struct PhaseFlags {
    pub auto: bool,
    pub clippy: bool,
    pub fmt: bool,
    pub deps: bool,
}

/// The categories in the order in which their phases run and are
/// reported.
pub open spec fn category_order() -> Seq<IssueCategory> {
    seq![
        IssueCategory::Clippy,
        IssueCategory::Format,
        IssueCategory::Dependencies,
        IssueCategory::Manifest,
        IssueCategory::Documentation,
        IssueCategory::Tests,
    ]
}

/// The label of a category's phase.
pub open spec fn phase_label_of(category: IssueCategory) -> Seq<char> {
    match category {
        IssueCategory::Clippy => "Clippy fixes"@,
        IssueCategory::Format => "Formato (cargo fmt)"@,
        IssueCategory::Dependencies => "Dependencias"@,
        IssueCategory::Manifest => "Manifest"@,
        IssueCategory::Documentation => "Documentacion"@,
        IssueCategory::Tests => "Tests"@,
    }
}

/// The name of a category in exported summaries.
pub open spec fn category_name_of(category: IssueCategory) -> Seq<char> {
    match category {
        IssueCategory::Clippy => "clippy"@,
        IssueCategory::Format => "format"@,
        IssueCategory::Dependencies => "dependencies"@,
        IssueCategory::Manifest => "manifest"@,
        IssueCategory::Documentation => "documentation"@,
        IssueCategory::Tests => "tests"@,
    }
}

/// The name of a severity in exported summaries.
pub open spec fn severity_name_of(severity: IssueSeverity) -> Seq<char> {
    match severity {
        IssueSeverity::Critical => "critical"@,
        IssueSeverity::Warning => "warning"@,
        IssueSeverity::Info => "info"@,
    }
}

/// Some issue of `issues` is of `category`.
pub open spec fn has_issue_of(issues: Seq<RepairIssue>, category: IssueCategory) -> bool {
    exists|i: int| 0 <= i < issues.len() && (#[trigger] issues[i]).category == category
}

/// Some result of `results` is for an issue of `category`.
pub open spec fn has_result_of(results: Seq<RepairResult>, category: IssueCategory) -> bool {
    exists|i: int| 0 <= i < results.len() && (#[trigger] results[i]).issue.category == category
}

/// The position of the first result from position `from` on that is for
/// `category` and failed, if there is one.
pub open spec fn first_failure(
    results: Seq<RepairResult>,
    category: IssueCategory,
    from: int,
) -> Option<int>
    decreases results.len() - from,
{
    if from < 0 || from >= results.len() {
        None
    } else if results[from].issue.category == category && !results[from].success {
        Some(from)
    } else {
        first_failure(results, category, from + 1)
    }
}

/// The time recorded for `category`: that of the first entry for it, and
/// zero where there is none.
pub open spec fn recorded_duration(
    durations: Seq<(IssueCategory, u128)>,
    category: IssueCategory,
) -> u128
    decreases durations.len(),
{
    if durations.len() == 0 {
        0
    } else if durations[0].0 == category {
        durations[0].1
    } else {
        recorded_duration(durations.drop_first(), category)
    }
}

/// The flags that the options of a programmatic repair stand for: the
/// levels `safe`, `balanced` and `aggressive` fix them, any other level and
/// no level leave them as given.
pub open spec fn flags_of(options: RepairOptions) -> PhaseFlags {
    let given = PhaseFlags {
        auto: options.auto,
        clippy: options.clippy,
        fmt: options.fmt,
        deps: options.deps,
    };
    match options.level {
        Some(level) => if level@ == "safe"@ {
            PhaseFlags { auto: false, clippy: true, fmt: true, deps: false }
        } else if level@ == "balanced"@ {
            PhaseFlags { auto: false, clippy: true, fmt: true, deps: true }
        } else if level@ == "aggressive"@ {
            PhaseFlags { auto: true, clippy: true, fmt: true, deps: true }
        } else {
            given
        },
        None => given,
    }
}

impl RepairCommand {
    /// The phase of `category` is switched on: all phases are, or this one
    /// is.
    pub open spec fn spec_phase_enabled(&self, category: IssueCategory) -> bool {
        self.auto || match category {
            IssueCategory::Clippy => self.clippy,
            IssueCategory::Format => self.fmt,
            IssueCategory::Dependencies => self.deps,
            IssueCategory::Manifest => self.manifest,
            IssueCategory::Documentation => self.docs,
            IssueCategory::Tests => self.tests,
        }
    }

    /// The summary covers `category`: its phase is switched on, or an issue
    /// of it was found.
    pub open spec fn covers(&self, issues: Seq<RepairIssue>, category: IssueCategory) -> bool {
        self.spec_phase_enabled(category) || has_issue_of(issues, category)
    }

    /// How the phase of `category` ended: skipped in a dry run and where no
    /// issue of the category was repaired, failed with the message of the
    /// first repair that failed, and succeeded otherwise.
    pub open spec fn phase_state(
        &self,
        results: Seq<RepairResult>,
        durations: Seq<(IssueCategory, u128)>,
        category: IssueCategory,
    ) -> StepState {
        if self.dry_run || !has_result_of(results, category) {
            StepState::Skipped
        } else {
            match first_failure(results, category, 0) {
                Some(i) => StepState::Failed(
                    recorded_duration(durations, category),
                    results[i].message,
                ),
                None => StepState::Success(recorded_duration(durations, category)),
            }
        }
    }

    /// The label of the step for the phase of `category`: the label of the
    /// phase, marked in a dry run.
    pub open spec fn phase_step_label(&self, category: IssueCategory) -> Seq<char> {
        if self.dry_run {
            phase_label_of(category) + " (dry-run)"@
        } else {
            phase_label_of(category)
        }
    }

    /// `step` summarises the phase of `category`.
    pub open spec fn is_phase_step(
        &self,
        results: Seq<RepairResult>,
        durations: Seq<(IssueCategory, u128)>,
        category: IssueCategory,
        step: StepSummary,
    ) -> bool {
        &&& step.label@ == self.phase_step_label(category)
        &&& step.state == self.phase_state(results, durations, category)
    }

    /// Whether the phase of `category` is switched on.
    pub fn phase_enabled(&self, category: IssueCategory) -> (r: bool)
        ensures
            r == self.spec_phase_enabled(category),
    {
        match category {
            IssueCategory::Clippy => self.auto || self.clippy,
            IssueCategory::Format => self.auto || self.fmt,
            IssueCategory::Dependencies => self.auto || self.deps,
            IssueCategory::Manifest => self.auto || self.manifest,
            IssueCategory::Documentation => self.auto || self.docs,
            IssueCategory::Tests => self.auto || self.tests,
        }
    }

    /// The label of a category's phase.
    pub fn phase_label(category: IssueCategory) -> (r: &'static str)
        ensures
            r@ == phase_label_of(category),
    {
        match category {
            IssueCategory::Clippy => "Clippy fixes",
            IssueCategory::Format => "Formato (cargo fmt)",
            IssueCategory::Dependencies => "Dependencias",
            IssueCategory::Manifest => "Manifest",
            IssueCategory::Documentation => "Documentacion",
            IssueCategory::Tests => "Tests",
        }
    }

    /// The label of the export step: it names the path where one is given.
    pub fn export_step_label(&self) -> (r: String)
        ensures
            r@ == match self.export {
                Some(path) => "Export report ("@ + path@ + ")"@,
                None => "Export report"@,
            },
    {
        match &self.export {
            Some(path) => String::from_str("Export report (").concat(path.as_str()).concat(")"),
            None => String::from_str("Export report"),
        }
    }

    /// The categories that the summary covers, in phase order.
    pub fn summary_categories(&self, issues: &[RepairIssue]) -> (r: Vec<IssueCategory>)
        ensures
            r@ == category_order().filter(|c: IssueCategory| self.covers(issues@, c)),
    {
        let ghost covered = |c: IssueCategory| self.covers(issues@, c);
        let mut out: Vec<IssueCategory> = Vec::new();
        let mut k: usize = 0;
        proof {
            reveal(Seq::filter);
            assert(category_order().take(0) =~= Seq::<IssueCategory>::empty());
            assert(out@ =~= category_order().take(0).filter(covered));
        }
        while k < 6
            invariant
                k <= 6,
                covered == (|c: IssueCategory| self.covers(issues@, c)),
                out@ == category_order().take(k as int).filter(covered),
            decreases 6 - k,
        {
            let category = category_at(k);
            let wanted = self.phase_enabled(category) || found_issue_of(issues, category);
            proof {
                reveal(Seq::filter);
                let upto = category_order().take(k + 1);
                assert(upto.drop_last() =~= category_order().take(k as int));
                assert(upto.last() == category);
                assert(wanted == covered(category));
            }
            if wanted {
                out.push(category);
            }
            k = k + 1;
        }
        proof {
            assert(category_order().take(6) =~= category_order());
        }
        out
    }

    /// Appends one step per covered category to `steps`, in phase order.
    pub fn append_phase_steps(
        &self,
        steps: &mut Vec<StepSummary>,
        issues: &[RepairIssue],
        results: &[RepairResult],
        durations: &[(IssueCategory, u128)],
    )
        ensures
            ({
                let covered = category_order().filter(|c: IssueCategory| self.covers(issues@, c));
                &&& final(steps)@.len() == old(steps)@.len() + covered.len()
                &&& final(steps)@.take(old(steps)@.len() as int) == old(steps)@
                &&& forall|k: int|
                    0 <= k < covered.len() ==> self.is_phase_step(
                        results@,
                        durations@,
                        covered[k],
                        #[trigger] final(steps)@[old(steps)@.len() + k],
                    )
            }),
    {
        let categories = self.summary_categories(issues);
        let ghost covered = categories@;
        let ghost start = steps@;
        let mut k: usize = 0;
        while k < categories.len()
            invariant
                k <= categories.len(),
                categories@ == covered,
                steps@.len() == start.len() + k,
                steps@.take(start.len() as int) == start,
                forall|j: int|
                    0 <= j < k ==> self.is_phase_step(
                        results@,
                        durations@,
                        covered[j],
                        #[trigger] steps@[start.len() + j],
                    ),
            decreases categories.len() - k,
        {
            let category = categories[k];
            let step = self.phase_step(results, durations, category);
            let ghost before = steps@;
            steps.push(step);
            proof {
                assert(steps@.take(start.len() as int) =~= before.take(start.len() as int));
                assert forall|j: int| 0 <= j < k + 1 implies self.is_phase_step(
                    results@,
                    durations@,
                    covered[j],
                    #[trigger] steps@[start.len() + j],
                ) by {
                    if j < k {
                        assert(steps@[start.len() + j] == before[start.len() + j]);
                    }
                }
            }
            k = k + 1;
        }
    }

    /// The step that summarises the phase of `category`.
    pub fn phase_step(
        &self,
        results: &[RepairResult],
        durations: &[(IssueCategory, u128)],
        category: IssueCategory,
    ) -> (step: StepSummary)
        ensures
            self.is_phase_step(results@, durations@, category, step),
    {
        let label = Self::phase_label(category);
        if self.dry_run {
            return StepSummary::skipped(String::from_str(label).concat(" (dry-run)"));
        }
        let mut seen = false;
        let mut i: usize = 0;
        while i < results.len()
            invariant
                i <= results.len(),
                !self.dry_run,
                label@ == phase_label_of(category),
                seen == has_result_of(results@.take(i as int), category),
                first_failure(results@, category, 0) == first_failure(results@, category, i as int),
            decreases results.len() - i,
        {
            let result = &results[i];
            proof {
                let upto = results@.take(i + 1);
                if has_result_of(upto, category) {
                    let w = choose|w: int|
                        0 <= w < upto.len() && (#[trigger] upto[w]).issue.category == category;
                    if w < i {
                        assert(results@.take(i as int)[w] == upto[w]);
                    }
                }
                if has_result_of(results@.take(i as int), category) {
                    let w = choose|w: int|
                        0 <= w < i && (#[trigger] results@.take(i as int)[w]).issue.category
                            == category;
                    assert(upto[w] == results@.take(i as int)[w]);
                }
                if result.issue.category == category {
                    assert(upto[i as int] == results@[i as int]);
                }
            }
            if result.issue.category == category {
                seen = true;
                if !result.success {
                    let message = result.message.clone();
                    proof {
                        assert(results@[i as int].issue.category == category);
                        assert(has_result_of(results@, category));
                    }
                    let step = StepSummary::failed(
                        String::from_str(label),
                        duration_of(durations, category),
                        message,
                    );
                    return step;
                }
            }
            i = i + 1;
        }
        proof {
            assert(results@.take(results.len() as int) =~= results@);
        }
        if seen {
            StepSummary::success(String::from_str(label), duration_of(durations, category))
        } else {
            StepSummary::skipped(String::from_str(label))
        }
    }

    /// The command that the options of a programmatic repair stand for: the
    /// flags of the level, no further phases, a check afterwards, and no
    /// questions asked.
    pub fn from_options(options: RepairOptions) -> (r: Self)
        ensures
            r.auto == flags_of(options).auto,
            r.clippy == flags_of(options).clippy,
            r.fmt == flags_of(options).fmt,
            r.deps == flags_of(options).deps,
            !r.manifest && !r.clean && !r.docs && !r.tests && !r.outdated,
            r.export is None,
            r.check && r.force,
            r.dry_run == options.dry_run,
            r.level == options.level,
            r.rollback == options.rollback,
            r.update == options.update,
            r.upgrade == options.upgrade,
            r.git_branch == options.git_branch,
            r.git_commit == options.git_commit,
    {
        let mut auto = options.auto;
        let mut clippy = options.clippy;
        let mut fmt = options.fmt;
        let mut deps = options.deps;
        match &options.level {
            Some(level) => {
                if *level == String::from_str("safe") {
                    auto = false;
                    clippy = true;
                    fmt = true;
                    deps = false;
                } else if *level == String::from_str("balanced") {
                    auto = false;
                    clippy = true;
                    fmt = true;
                    deps = true;
                } else if *level == String::from_str("aggressive") {
                    auto = true;
                    clippy = true;
                    fmt = true;
                    deps = true;
                }
            },
            None => {},
        }
        RepairCommand {
            auto,
            clippy,
            fmt,
            deps,
            manifest: false,
            clean: false,
            docs: false,
            tests: false,
            export: None,
            check: true,
            outdated: false,
            dry_run: options.dry_run,
            force: true,
            level: options.level,
            rollback: options.rollback,
            update: options.update,
            upgrade: options.upgrade,
            git_branch: options.git_branch,
            git_commit: options.git_commit,
        }
    }

    /// The documentation issues of a workspace: a missing README.
    pub fn detect_docs_issues(&self, readme_exists: bool) -> (r: Vec<RepairIssue>)
        ensures
            r@.len() == if readme_exists {
                0nat
            } else {
                1nat
            },
            !readme_exists ==> {
                &&& r@[0].category == IssueCategory::Documentation
                &&& r@[0].severity == IssueSeverity::Warning
                &&& r@[0].fixable
                &&& r@[0].description@ == "Documentación faltante - No se encontró README.md"@
                &&& r@[0].command@ == "echo '# Proyecto' > README.md"@
            },
    {
        let mut issues: Vec<RepairIssue> = Vec::new();
        if !readme_exists {
            issues.push(
                RepairIssue {
                    category: IssueCategory::Documentation,
                    description: String::from_str("Documentación faltante - No se encontró README.md"),
                    severity: IssueSeverity::Warning,
                    fixable: true,
                    command: String::from_str("echo '# Proyecto' > README.md"),
                },
            );
        }
        issues
    }

    /// The test issues of a workspace: neither a tests directory nor a
    /// library root.
    pub fn detect_test_issues(&self, tests_dir_exists: bool, library_exists: bool) -> (r: Vec<
        RepairIssue,
    >)
        ensures
            r@.len() == if tests_dir_exists || library_exists {
                0nat
            } else {
                1nat
            },
            !(tests_dir_exists || library_exists) ==> {
                &&& r@[0].category == IssueCategory::Tests
                &&& r@[0].severity == IssueSeverity::Warning
                &&& r@[0].fixable
                &&& r@[0].description@ == "Tests faltantes - No se encontraron directorios de tests"@
                &&& r@[0].command@ == "cargo test --no-run"@
            },
    {
        let mut issues: Vec<RepairIssue> = Vec::new();
        if !tests_dir_exists && !library_exists {
            issues.push(
                RepairIssue {
                    category: IssueCategory::Tests,
                    description: String::from_str(
                        "Tests faltantes - No se encontraron directorios de tests",
                    ),
                    severity: IssueSeverity::Warning,
                    fixable: true,
                    command: String::from_str("cargo test --no-run"),
                },
            );
        }
        issues
    }
}

/// The category at position `k` of the phase order.
pub fn category_at(k: usize) -> (r: IssueCategory)
    requires
        k < 6,
    ensures
        r == category_order()[k as int],
{
    if k == 0 {
        IssueCategory::Clippy
    } else if k == 1 {
        IssueCategory::Format
    } else if k == 2 {
        IssueCategory::Dependencies
    } else if k == 3 {
        IssueCategory::Manifest
    } else if k == 4 {
        IssueCategory::Documentation
    } else {
        IssueCategory::Tests
    }
}

/// Whether some issue of `issues` is of `category`.
pub fn found_issue_of(issues: &[RepairIssue], category: IssueCategory) -> (r: bool)
    ensures
        r == has_issue_of(issues@, category),
{
    let mut i: usize = 0;
    while i < issues.len()
        invariant
            i <= issues.len(),
            forall|j: int| 0 <= j < i ==> (#[trigger] issues@[j]).category != category,
        decreases issues.len() - i,
    {
        if issues[i].category == category {
            return true;
        }
        i = i + 1;
    }
    false
}

/// The time recorded for `category`, and zero where there is none.
pub fn duration_of(durations: &[(IssueCategory, u128)], category: IssueCategory) -> (r: u128)
    ensures
        r == recorded_duration(durations@, category),
{
    let mut i: usize = 0;
    proof {
        assert(durations@.skip(0) =~= durations@);
    }
    while i < durations.len()
        invariant
            i <= durations.len(),
            recorded_duration(durations@, category) == recorded_duration(
                durations@.skip(i as int),
                category,
            ),
        decreases durations.len() - i,
    {
        proof {
            assert(durations@.skip(i as int).drop_first() =~= durations@.skip(i + 1));
        }
        if durations[i].0 == category {
            return durations[i].1;
        }
        i = i + 1;
    }
    0
}

/// The name of a category in exported summaries.
pub fn issue_category_name(cat: &IssueCategory) -> (r: &'static str)
    ensures
        r@ == category_name_of(*cat),
{
    match cat {
        IssueCategory::Clippy => "clippy",
        IssueCategory::Format => "format",
        IssueCategory::Dependencies => "dependencies",
        IssueCategory::Manifest => "manifest",
        IssueCategory::Documentation => "documentation",
        IssueCategory::Tests => "tests",
    }
}

/// The name of a severity in exported summaries.
pub fn issue_severity_name(sev: &IssueSeverity) -> (r: &'static str)
    ensures
        r@ == severity_name_of(*sev),
{
    match sev {
        IssueSeverity::Critical => "critical",
        IssueSeverity::Warning => "warning",
        IssueSeverity::Info => "info",
    }
}

} // verus!
