use trae_cli::commands::paths::{count_occurrences, PathsCommand};
use trae_cli::commands::security::{SecurityCommand, SecuritySeverity};
use trae_cli::commands::watch::WatchCommand;
use trae_cli::config::{AnalysisConfig, RepairConfig, TraeConfig};
use trae_cli::engine::cargo::{estimate_cargo_units, CargoExecutor, CargoStream, WorkspaceShape};
use trae_cli::utils::ui::{truncate, StepState, StepSummary};

fn security(level: &str) -> SecurityCommand {
    SecurityCommand {
        audit: true,
        deps: false,
        code: false,
        config_check: false,
        cargo_audit: false,
        secrets: false,
        report: false,
        fix: false,
        level: level.to_string(),
        format: "text".to_string(),
    }
}

#[test]
fn severity_levels_are_named() {
    assert_eq!(security("low").parse_severity_level(), SecuritySeverity::Low);
    assert_eq!(security("medium").parse_severity_level(), SecuritySeverity::Medium);
    assert_eq!(security("high").parse_severity_level(), SecuritySeverity::High);
    assert_eq!(security("critical").parse_severity_level(), SecuritySeverity::Critical);
    assert_eq!(security("info").parse_severity_level(), SecuritySeverity::Medium);
    assert_eq!(security("").parse_severity_level(), SecuritySeverity::Medium);
}

#[test]
fn severities_are_ranked() {
    let order = [
        SecuritySeverity::Info,
        SecuritySeverity::Low,
        SecuritySeverity::Medium,
        SecuritySeverity::High,
        SecuritySeverity::Critical,
    ];
    for (i, a) in order.iter().enumerate() {
        assert_eq!(a.rank() as usize, i + 1);
        for (j, b) in order.iter().enumerate() {
            assert_eq!(a.at_least(*b), i >= j);
        }
    }
}

#[test]
fn the_score_loses_a_penalty_per_finding() {
    let cmd = security("medium");
    assert_eq!(cmd.calculate_security_score(&[]), 100);
    assert_eq!(cmd.calculate_security_score(&[SecuritySeverity::Critical]), 75);
    assert_eq!(cmd.calculate_security_score(&[SecuritySeverity::High]), 85);
    assert_eq!(cmd.calculate_security_score(&[SecuritySeverity::Medium]), 92);
    assert_eq!(cmd.calculate_security_score(&[SecuritySeverity::Low]), 97);
    assert_eq!(cmd.calculate_security_score(&[SecuritySeverity::Info]), 99);
    assert_eq!(
        cmd.calculate_security_score(&[SecuritySeverity::Critical, SecuritySeverity::Low, SecuritySeverity::Info]),
        71
    );
}

#[test]
fn the_score_never_drops_below_zero() {
    let cmd = security("medium");
    assert_eq!(cmd.calculate_security_score(&[SecuritySeverity::Critical; 4]), 0);
    assert_eq!(cmd.calculate_security_score(&[SecuritySeverity::Critical; 5]), 0);
    let mut findings = vec![SecuritySeverity::Critical; 5];
    findings.push(SecuritySeverity::Info);
    assert_eq!(cmd.calculate_security_score(&findings), 0);
}

#[test]
fn occurrences_agree_with_the_standard_library() {
    let samples = ["", "TODO", "a TODO and a TODO: too", "unwrap().unwrap()", "aaaa", "ñandú"];
    let needles = ["TODO", "unwrap()", "panic!", "aa", "", "ñ"];
    for sample in samples {
        for needle in needles {
            assert_eq!(count_occurrences(sample, needle), sample.matches(needle).count() as u64);
        }
    }
    assert_eq!(count_occurrences("a TODO and a TODO: too", "TODO"), 2);
    assert_eq!(count_occurrences("abc", ""), 4);
}

#[test]
fn paths_command_holds_its_options() {
    let cmd = PathsCommand { paths: vec!["src".to_string()], json: true, cargo_check: false };
    assert_eq!(cmd.paths, vec!["src".to_string()]);
    assert!(cmd.json && !cmd.cargo_check);
}

#[test]
fn watch_paths_default_to_sources_and_manifest() {
    let mut cmd = WatchCommand {
        command: "check".to_string(),
        args: Vec::new(),
        paths: Vec::new(),
        debounce_ms: 300,
        skip_initial: false,
    };
    assert_eq!(cmd.watch_paths(), vec!["src".to_string(), "Cargo.toml".to_string()]);
    cmd.paths = vec!["benches".to_string(), "tests".to_string(), "build.rs".to_string()];
    assert_eq!(cmd.watch_paths(), cmd.paths);
}

#[test]
fn truncate_cuts_and_marks() {
    assert_eq!(truncate("hello", 10), "hello");
    assert_eq!(truncate("hello", 5), "hello");
    assert_eq!(truncate("hello", 4), "hel…");
    assert_eq!(truncate("hello", 1), "…");
    assert_eq!(truncate("hello", 0), "…");
    assert_eq!(truncate("", 0), "");
    assert_eq!(truncate("añoñez", 4), "año…");
    assert_eq!(trae_cli::commands::watch::truncate("cargo check --all", 8), "cargo c…");
}

#[test]
fn step_summaries_carry_label_and_state() {
    assert_eq!(
        StepSummary::success("build".to_string(), 1_500_000_000),
        StepSummary { label: "build".to_string(), state: StepState::Success(1_500_000_000) }
    );
    assert_eq!(
        StepSummary::failed("test".to_string(), 7, "boom".to_string()),
        StepSummary { label: "test".to_string(), state: StepState::Failed(7, "boom".to_string()) }
    );
    assert_eq!(
        StepSummary::skipped("docs".to_string()),
        StepSummary { label: "docs".to_string(), state: StepState::Skipped }
    );
}

#[test]
fn cargo_units_are_estimated_from_the_workspace() {
    assert_eq!(estimate_cargo_units(None), 100);
    assert_eq!(estimate_cargo_units(Some(WorkspaceShape { resolved_nodes: Some(42), packages: 3 })), 42);
    assert_eq!(estimate_cargo_units(Some(WorkspaceShape { resolved_nodes: Some(0), packages: 3 })), 3);
    assert_eq!(estimate_cargo_units(Some(WorkspaceShape { resolved_nodes: None, packages: 7 })), 7);
    assert_eq!(estimate_cargo_units(Some(WorkspaceShape { resolved_nodes: None, packages: 0 })), 1);
}

#[test]
fn the_executor_remembers_its_directory() {
    let executor = CargoExecutor::new();
    assert_eq!(executor.working_dir(), None);
    let moved = executor.with_working_dir("crates/core".to_string());
    assert_eq!(moved.working_dir().map(|d| d.as_str()), Some("crates/core"));
    assert_ne!(CargoStream::Stdout, CargoStream::Stderr);
}

#[test]
fn the_default_configuration() {
    let config = TraeConfig::default();
    assert!(config.jarvix.enabled);
    assert_eq!(config.jarvix.server_url, "http://localhost:8080");
    assert_eq!(config.jarvix.api_key, None);
    assert_eq!(config.jarvix.timeout, 30);
    assert_eq!(
        config.analysis,
        AnalysisConfig { auto_analysis: true, performance_analysis: false, security_analysis: false }
    );
    assert_eq!(config.repair, RepairConfig { auto_repair: false, backup_before_repair: true, clippy_auto_fix: true });
}
