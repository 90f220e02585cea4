use trae_cli::commands::repair::{
    category_at, duration_of, found_issue_of, issue_category_name, issue_severity_name, IssueCategory,
    IssueSeverity, PostCheckOutcome, RepairCommand, RepairIssue, RepairOptions, RepairResult,
};
use trae_cli::utils::ui::{StepState, StepSummary};

fn options(level: Option<&str>) -> RepairOptions {
    RepairOptions {
        auto: false,
        clippy: false,
        fmt: true,
        deps: false,
        dry_run: false,
        no_jarvix: true,
        level: level.map(|l| l.to_string()),
        rollback: false,
        update: true,
        upgrade: false,
        git_branch: Some("fix".to_string()),
        git_commit: None,
    }
}

fn command() -> RepairCommand {
    RepairCommand::from_options(options(None))
}

fn issue(category: IssueCategory) -> RepairIssue {
    RepairIssue {
        category,
        description: "d".to_string(),
        severity: IssueSeverity::Warning,
        fixable: true,
        command: "c".to_string(),
    }
}

fn result(category: IssueCategory, success: bool, message: &str) -> RepairResult {
    RepairResult { issue: issue(category), success, message: message.to_string() }
}

#[test]
fn levels_fix_the_flags() {
    let safe = RepairCommand::from_options(options(Some("safe")));
    assert_eq!((safe.auto, safe.clippy, safe.fmt, safe.deps), (false, true, true, false));
    let balanced = RepairCommand::from_options(options(Some("balanced")));
    assert_eq!((balanced.auto, balanced.clippy, balanced.fmt, balanced.deps), (false, true, true, true));
    let aggressive = RepairCommand::from_options(options(Some("aggressive")));
    assert_eq!((aggressive.auto, aggressive.clippy, aggressive.fmt, aggressive.deps), (true, true, true, true));
    let other = RepairCommand::from_options(options(Some("gentle")));
    assert_eq!((other.auto, other.clippy, other.fmt, other.deps), (false, false, true, false));
    let none = RepairCommand::from_options(options(None));
    assert_eq!((none.auto, none.clippy, none.fmt, none.deps), (false, false, true, false));
}

#[test]
fn options_carry_over() {
    let cmd = RepairCommand::from_options(options(Some("safe")));
    assert!(cmd.check && cmd.force);
    assert!(!cmd.manifest && !cmd.clean && !cmd.docs && !cmd.tests && !cmd.outdated && !cmd.dry_run);
    assert_eq!(cmd.export, None);
    assert_eq!(cmd.level.as_deref(), Some("safe"));
    assert!(cmd.update && !cmd.upgrade && !cmd.rollback);
    assert_eq!(cmd.git_branch.as_deref(), Some("fix"));
    assert_eq!(cmd.git_commit, None);
}

#[test]
fn phases_are_enabled_by_their_flag_or_by_auto() {
    let mut cmd = command();
    assert!(cmd.phase_enabled(IssueCategory::Format));
    assert!(!cmd.phase_enabled(IssueCategory::Clippy));
    assert!(!cmd.phase_enabled(IssueCategory::Tests));
    cmd.tests = true;
    cmd.docs = true;
    cmd.manifest = true;
    cmd.deps = true;
    cmd.clippy = true;
    assert!(cmd.phase_enabled(IssueCategory::Tests));
    assert!(cmd.phase_enabled(IssueCategory::Documentation));
    assert!(cmd.phase_enabled(IssueCategory::Manifest));
    assert!(cmd.phase_enabled(IssueCategory::Dependencies));
    assert!(cmd.phase_enabled(IssueCategory::Clippy));
    let mut auto = command();
    auto.fmt = false;
    auto.auto = true;
    for k in 0..6 {
        assert!(auto.phase_enabled(category_at(k)));
    }
}

#[test]
fn labels_and_names() {
    assert_eq!(RepairCommand::phase_label(IssueCategory::Clippy), "Clippy fixes");
    assert_eq!(RepairCommand::phase_label(IssueCategory::Format), "Formato (cargo fmt)");
    assert_eq!(RepairCommand::phase_label(IssueCategory::Dependencies), "Dependencias");
    assert_eq!(RepairCommand::phase_label(IssueCategory::Manifest), "Manifest");
    assert_eq!(RepairCommand::phase_label(IssueCategory::Documentation), "Documentacion");
    assert_eq!(RepairCommand::phase_label(IssueCategory::Tests), "Tests");
    assert_eq!(issue_category_name(&IssueCategory::Clippy), "clippy");
    assert_eq!(issue_category_name(&IssueCategory::Format), "format");
    assert_eq!(issue_category_name(&IssueCategory::Dependencies), "dependencies");
    assert_eq!(issue_category_name(&IssueCategory::Manifest), "manifest");
    assert_eq!(issue_category_name(&IssueCategory::Documentation), "documentation");
    assert_eq!(issue_category_name(&IssueCategory::Tests), "tests");
    assert_eq!(issue_severity_name(&IssueSeverity::Critical), "critical");
    assert_eq!(issue_severity_name(&IssueSeverity::Warning), "warning");
    assert_eq!(issue_severity_name(&IssueSeverity::Info), "info");
}

#[test]
fn export_label_names_the_path() {
    let mut cmd = command();
    assert_eq!(cmd.export_step_label(), "Export report");
    cmd.export = Some("out.json".to_string());
    assert_eq!(cmd.export_step_label(), "Export report (out.json)");
}

#[test]
fn summary_covers_enabled_phases_and_found_issues_in_order() {
    let cmd = command();
    assert_eq!(cmd.summary_categories(&[]), vec![IssueCategory::Format]);
    let issues = vec![issue(IssueCategory::Tests), issue(IssueCategory::Clippy), issue(IssueCategory::Tests)];
    assert_eq!(
        cmd.summary_categories(&issues),
        vec![IssueCategory::Clippy, IssueCategory::Format, IssueCategory::Tests]
    );
    assert!(found_issue_of(&issues, IssueCategory::Tests));
    assert!(!found_issue_of(&issues, IssueCategory::Manifest));
}

#[test]
fn durations_are_looked_up_by_category() {
    let durations = vec![(IssueCategory::Format, 5), (IssueCategory::Tests, 9), (IssueCategory::Format, 7)];
    assert_eq!(duration_of(&durations, IssueCategory::Format), 5);
    assert_eq!(duration_of(&durations, IssueCategory::Tests), 9);
    assert_eq!(duration_of(&durations, IssueCategory::Clippy), 0);
}

#[test]
fn a_phase_step_tells_how_the_phase_ended() {
    let cmd = command();
    let durations = vec![(IssueCategory::Format, 5u128), (IssueCategory::Clippy, 8)];
    let results = vec![
        result(IssueCategory::Format, true, "ok"),
        result(IssueCategory::Clippy, true, "ok"),
        result(IssueCategory::Clippy, false, "first failure"),
        result(IssueCategory::Clippy, false, "second failure"),
    ];
    assert_eq!(
        cmd.phase_step(&results, &durations, IssueCategory::Format),
        StepSummary { label: "Formato (cargo fmt)".to_string(), state: StepState::Success(5) }
    );
    assert_eq!(
        cmd.phase_step(&results, &durations, IssueCategory::Clippy),
        StepSummary { label: "Clippy fixes".to_string(), state: StepState::Failed(8, "first failure".to_string()) }
    );
    assert_eq!(
        cmd.phase_step(&results, &durations, IssueCategory::Tests),
        StepSummary { label: "Tests".to_string(), state: StepState::Skipped }
    );
    assert_eq!(
        cmd.phase_step(&results, &[], IssueCategory::Format),
        StepSummary { label: "Formato (cargo fmt)".to_string(), state: StepState::Success(0) }
    );
}

#[test]
fn a_dry_run_skips_every_phase() {
    let mut cmd = command();
    cmd.dry_run = true;
    let results = vec![result(IssueCategory::Format, false, "no")];
    assert_eq!(
        cmd.phase_step(&results, &[], IssueCategory::Format),
        StepSummary { label: "Formato (cargo fmt) (dry-run)".to_string(), state: StepState::Skipped }
    );
}

#[test]
fn phase_steps_are_appended_in_phase_order() {
    let cmd = command();
    let issues = vec![issue(IssueCategory::Tests), issue(IssueCategory::Clippy)];
    let results = vec![result(IssueCategory::Tests, true, "ok"), result(IssueCategory::Clippy, false, "broken")];
    let durations = vec![(IssueCategory::Tests, 3u128)];
    let mut steps = vec![StepSummary::skipped("before".to_string())];
    cmd.append_phase_steps(&mut steps, &issues, &results, &durations);
    assert_eq!(
        steps,
        vec![
            StepSummary { label: "before".to_string(), state: StepState::Skipped },
            StepSummary { label: "Clippy fixes".to_string(), state: StepState::Failed(0, "broken".to_string()) },
            StepSummary { label: "Formato (cargo fmt)".to_string(), state: StepState::Skipped },
            StepSummary { label: "Tests".to_string(), state: StepState::Success(3) },
        ]
    );
}

#[test]
fn a_missing_readme_is_a_documentation_issue() {
    let cmd = command();
    assert!(cmd.detect_docs_issues(true).is_empty());
    let issues = cmd.detect_docs_issues(false);
    assert_eq!(issues.len(), 1);
    assert_eq!(issues[0].category, IssueCategory::Documentation);
    assert_eq!(issues[0].severity, IssueSeverity::Warning);
    assert!(issues[0].fixable);
    assert_eq!(issues[0].description, "Documentación faltante - No se encontró README.md");
    assert_eq!(issues[0].command, "echo '# Proyecto' > README.md");
}

#[test]
fn missing_tests_are_a_test_issue() {
    let cmd = command();
    assert!(cmd.detect_test_issues(true, false).is_empty());
    assert!(cmd.detect_test_issues(false, true).is_empty());
    assert!(cmd.detect_test_issues(true, true).is_empty());
    let issues = cmd.detect_test_issues(false, false);
    assert_eq!(issues.len(), 1);
    assert_eq!(issues[0].category, IssueCategory::Tests);
    assert_eq!(issues[0].description, "Tests faltantes - No se encontraron directorios de tests");
    assert_eq!(issues[0].command, "cargo test --no-run");
}

#[test]
fn post_check_outcomes_compare_by_value() {
    let a = PostCheckOutcome { success: true, warnings: 1, errors: 0 };
    assert_eq!(a, PostCheckOutcome { success: true, warnings: 1, errors: 0 });
    assert_ne!(a, PostCheckOutcome { success: false, warnings: 1, errors: 0 });
}
