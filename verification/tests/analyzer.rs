use std::sync::atomic::{AtomicUsize, Ordering};

use trae_cli::engine::analyzer::{
    analyze_source, AnalysisIssue, FileAnalysisResult, IssueSeverity, OptimizationEffort,
    OptimizationImpact, ProjectAnalysis, ProjectAnalyzer,
};
use trae_cli::engine::project::{aggregate, count_units, AnalysisError, ArtifactInfo};
use trae_cli::numeric::Ratio;
use trae_cli::performance_patterns::PerformanceConfig;

fn config() -> PerformanceConfig {
    PerformanceConfig { thread_count: 2, cache_size: 200, batch_size: 50, timeout_ms: 2000, parallel_threshold: 20 }
}

fn lines_of(count: usize, marked: Option<(usize, &str)>) -> String {
    let mut text = String::new();
    for i in 0..count {
        match marked {
            Some((at, mark)) if at == i => text.push_str(mark),
            _ => text.push_str("let x = 1;"),
        }
        text.push('\n');
    }
    text
}

#[test]
fn a_clean_file_has_lines_and_nothing_else() {
    let result = analyze_source("src/a.rs", "Some(\"a.rs\")", "fn main() {}\n");
    assert_eq!(result.lines, 1);
    assert!(result.issues.is_empty());
    assert!(result.suggestions.is_empty());
}

#[test]
fn an_empty_file_has_no_lines() {
    let result = analyze_source("src/a.rs", "Some(\"a.rs\")", "");
    assert_eq!(result.lines, 0);
    assert!(result.issues.is_empty());
}

#[test]
fn an_open_task_is_reported_with_its_line() {
    let result = analyze_source("src/a.rs", "Some(\"a.rs\")", "fn f() {}\n\n// TODO: later\n// TODO: more\n");
    assert_eq!(result.issues.len(), 1);
    let issue = &result.issues[0];
    assert_eq!(issue.category, "Code Quality");
    assert_eq!(issue.description, "TODO encontrado en Some(\"a.rs\")");
    assert_eq!(issue.severity, IssueSeverity::Info);
    assert_eq!(issue.file.as_deref(), Some("src/a.rs"));
    assert_eq!(issue.line, Some(3));
}

#[test]
fn a_task_marker_without_a_colon_is_not_reported() {
    let result = analyze_source("a.rs", "a", "// TODO later\n");
    assert!(result.issues.is_empty());
}

#[test]
fn few_unwraps_are_a_warning() {
    let result = analyze_source("a.rs", "a", "x\ny.unwrap(); z.unwrap();\n");
    assert_eq!(result.issues.len(), 1);
    let issue = &result.issues[0];
    assert_eq!(issue.category, "Safety");
    assert_eq!(issue.description, "uso de unwrap() (2 veces) en a");
    assert_eq!(issue.severity, IssueSeverity::Warning);
    assert_eq!(issue.line, Some(2));
    assert!(!issue.is_critical());
}

#[test]
fn five_unwraps_are_still_a_warning_and_six_are_critical() {
    let five = analyze_source("a.rs", "a", &"v.unwrap();\n".repeat(5));
    assert_eq!(five.issues[0].severity, IssueSeverity::Warning);
    let six = analyze_source("a.rs", "a", &"v.unwrap();\n".repeat(6));
    assert_eq!(six.issues[0].severity, IssueSeverity::Critical);
    assert_eq!(six.issues[0].description, "uso de unwrap() (6 veces) en a");
    assert!(six.issues[0].is_critical());
}

#[test]
fn a_panic_is_critical() {
    let result = analyze_source("a.rs", "a", "fn f() {\n    panic!(\"no\");\n}\n");
    assert_eq!(result.issues.len(), 1);
    assert_eq!(result.issues[0].description, "panic! macro encontrado en a");
    assert_eq!(result.issues[0].severity, IssueSeverity::Critical);
    assert_eq!(result.issues[0].line, Some(2));
}

#[test]
fn findings_come_in_a_fixed_order() {
    let result = analyze_source("a.rs", "a", "panic!();\nx.unwrap();\n// TODO: y\n");
    let categories: Vec<&str> = result.issues.iter().map(|i| i.category.as_str()).collect();
    assert_eq!(categories, vec!["Code Quality", "Safety", "Safety"]);
    let lines: Vec<Option<usize>> = result.issues.iter().map(|i| i.line).collect();
    assert_eq!(lines, vec![Some(3), Some(2), Some(1)]);
}

#[test]
fn long_files_get_a_suggestion_by_size() {
    let at_limit = analyze_source("a.rs", "a", &lines_of(200, None));
    assert!(at_limit.suggestions.is_empty());
    let long = analyze_source("a.rs", "a", &lines_of(201, None));
    assert_eq!(long.suggestions.len(), 1);
    assert_eq!(long.suggestions[0].description, "Revisar organización (201 líneas)");
    assert_eq!(long.suggestions[0].impact, OptimizationImpact::Low);
    assert_eq!(long.suggestions[0].effort, OptimizationEffort::Low);
    let large = analyze_source("a.rs", "a", &lines_of(501, None));
    assert_eq!(large.suggestions[0].description, "Considerar dividir archivo (501 líneas)");
    assert_eq!(large.suggestions[0].impact, OptimizationImpact::Medium);
    assert_eq!(large.suggestions[0].effort, OptimizationEffort::Medium);
    let huge = analyze_source("a.rs", "a", &lines_of(1001, None));
    assert_eq!(huge.suggestions[0].description, "Archivo muy grande (1001 líneas) - Dividir urgentemente");
    assert_eq!(huge.suggestions[0].impact, OptimizationImpact::High);
    assert_eq!(huge.suggestions[0].effort, OptimizationEffort::High);
    assert_eq!(huge.suggestions[0].file.as_deref(), Some("a.rs"));
    assert_eq!(huge.suggestions[0].line, None);
}

#[test]
fn kept_dead_code_gets_a_suggestion() {
    let result = analyze_source("a.rs", "a", "#[allow(dead_code)]\nfn f() {}\n");
    assert_eq!(result.suggestions.len(), 1);
    assert_eq!(result.suggestions[0].description, "Revisar código marcado como dead_code");
}

#[test]
fn an_unreadable_file_contributes_nothing() {
    let result = FileAnalysisResult::empty();
    assert_eq!(result.lines, 0);
    assert!(result.issues.is_empty());
    assert!(result.suggestions.is_empty());
}

#[test]
fn aggregate_adds_lines_and_keeps_order() {
    let results = vec![
        analyze_source("a.rs", "a", "// TODO: a\n"),
        analyze_source("b.rs", "b", &lines_of(300, Some((4, "panic!();")))),
        analyze_source("c.rs", "c", "ok\nok\n"),
    ];
    let totals = aggregate(results);
    assert_eq!(totals.lines, 303);
    let files: Vec<&str> = totals.issues.iter().map(|i| i.file.as_deref().unwrap()).collect();
    assert_eq!(files, vec!["a.rs", "b.rs"]);
    assert_eq!(totals.suggestions.len(), 1);
}

#[test]
fn aggregate_saturates() {
    let mut big = FileAnalysisResult::empty();
    big.lines = usize::MAX;
    let mut more = FileAnalysisResult::empty();
    more.lines = 5;
    assert_eq!(aggregate(vec![big, more]).lines, usize::MAX);
}

#[test]
fn unit_count_is_a_hundred_per_file() {
    let config = config();
    assert_eq!(count_units(0, &config), Ok(0));
    assert_eq!(count_units(6, &config), Ok(600));
    assert_eq!(count_units(123, &config), Ok(12300));
}

type Source = (String, String);

fn analyze_pair(file: Source) -> FileAnalysisResult {
    analyze_source(&file.0, &file.0, &file.1)
}

fn three_files() -> Vec<Source> {
    vec![
        ("a.rs".to_string(), lines_of(10, Some((3, "// TODO: tidy up")))),
        ("b.rs".to_string(), lines_of(20, None)),
        ("c.rs".to_string(), lines_of(2000, Some((1500, "value.unwrap();")))),
    ]
}

#[test]
fn three_files_are_analysed_and_added_up() {
    let mut analyzer = ProjectAnalyzer::with_config(config());
    let analysis = analyzer
        .analyze_project("\"project\"".to_string(), three_files, analyze_pair)
        .unwrap();
    assert_eq!(analysis.total_lines, 2030);
    assert_eq!(analysis.files_count, 3);
    assert_eq!(analysis.issues.len(), 2);
    assert_eq!(analysis.issues[0].line, Some(4));
    assert_eq!(analysis.issues[1].line, Some(1501));
    assert_eq!(analysis.suggestions.len(), 1);
    assert!(analysis.optimizations.is_empty());
    assert!(!analysis.has_optimizations());
    assert!(!analysis.has_critical_issues());
    assert_eq!(analysis.critical_count(), 0);
    let names: Vec<&str> = analysis.metrics.iter().map(|m| m.name.as_str()).collect();
    assert_eq!(names, vec!["rust_files", "avg_lines_per_file", "cache_efficiency"]);
    assert_eq!(analysis.metrics[0].value, Ratio { numerator: 3, denominator: 1 });
    assert_eq!(analysis.metrics[1].value, Ratio { numerator: 2030, denominator: 3 });
    assert_eq!(analysis.metrics[2].value, Ratio { numerator: 0, denominator: 1 });
}

#[test]
fn a_second_analysis_comes_from_the_session_cache() {
    let calls = AtomicUsize::new(0);
    let listings = AtomicUsize::new(0);
    let counted = |file: Source| {
        calls.fetch_add(1, Ordering::SeqCst);
        analyze_pair(file)
    };
    let listed = || {
        listings.fetch_add(1, Ordering::SeqCst);
        three_files()
    };
    let mut analyzer = ProjectAnalyzer::with_config(config());
    let first = analyzer.analyze_project("p".to_string(), listed, counted).unwrap();
    assert_eq!(calls.load(Ordering::SeqCst), 3);
    assert_eq!(listings.load(Ordering::SeqCst), 1);
    let second = analyzer.analyze_project("p".to_string(), listed, counted).unwrap();
    assert_eq!(calls.load(Ordering::SeqCst), 3);
    assert_eq!(listings.load(Ordering::SeqCst), 1);
    assert_eq!(second.total_lines, first.total_lines);
    assert_eq!(second.issues.len(), first.issues.len());
    assert_eq!(analyzer.cache_hit_rate(), Ratio { numerator: 1, denominator: 2 });
    assert_eq!(analyzer.metrics().operations().len(), 1);
    assert_eq!(analyzer.metrics().operations()[0]._name, "project_analysis");
    assert!(analyzer.metrics().operations()[0].success);
}

#[test]
fn another_project_is_analysed_afresh() {
    let calls = AtomicUsize::new(0);
    let counted = |file: Source| {
        calls.fetch_add(1, Ordering::SeqCst);
        analyze_pair(file)
    };
    let mut analyzer = ProjectAnalyzer::with_config(config());
    analyzer.analyze_project("p".to_string(), three_files, counted).unwrap();
    analyzer.analyze_project("q".to_string(), three_files, counted).unwrap();
    assert_eq!(calls.load(Ordering::SeqCst), 6);
    assert_eq!(analyzer.cache_hit_rate(), Ratio { numerator: 0, denominator: 2 });
}

#[test]
fn results_do_not_depend_on_the_dispatch_mode() {
    let files = || -> Vec<Source> {
        (0..40).map(|i| (format!("f{}.rs", i), lines_of(i + 1, Some((0, "// TODO: x"))))).collect()
    };
    let mut sequential = ProjectAnalyzer::with_config(PerformanceConfig { parallel_threshold: usize::MAX, ..config() });
    let a = sequential.analyze_project("p".to_string(), files, analyze_pair).unwrap();
    let mut parallel = ProjectAnalyzer::with_config(PerformanceConfig { parallel_threshold: 0, ..config() });
    let b = parallel.analyze_project("p".to_string(), files, analyze_pair).unwrap();
    assert_eq!(a.total_lines, 820);
    assert_eq!(b.total_lines, 820);
    let files_a: Vec<Option<String>> = a.issues.iter().map(|i| i.file.clone()).collect();
    let files_b: Vec<Option<String>> = b.issues.iter().map(|i| i.file.clone()).collect();
    assert_eq!(files_a, files_b);
    assert_eq!(files_a.len(), 40);
    assert_eq!(files_a[7].as_deref(), Some("f7.rs"));
}

#[test]
fn more_than_five_files_add_the_unit_count() {
    let files = || -> Vec<Source> { (0..6).map(|i| (format!("f{}.rs", i), "x\n".to_string())).collect() };
    let mut analyzer = ProjectAnalyzer::with_config(config());
    let analysis = analyzer.analyze_project("p".to_string(), files, analyze_pair).unwrap();
    assert_eq!(analysis.metrics.len(), 4);
    assert_eq!(analysis.metrics[3].name, "parallel_processed_units");
    assert_eq!(analysis.metrics[3].value, Ratio { numerator: 600, denominator: 1 });
}

#[test]
fn an_empty_project_has_zero_averages() {
    let mut analyzer = ProjectAnalyzer::with_config(config());
    let analysis =
        analyzer.analyze_project("p".to_string(), Vec::<Source>::new, analyze_pair).unwrap();
    assert_eq!(analysis.files_count, 0);
    assert_eq!(analysis.total_lines, 0);
    assert_eq!(analysis.metrics[1].value, Ratio { numerator: 0, denominator: 1 });
}

#[test]
fn the_configuration_is_adjusted_after_a_run() {
    let mut analyzer = ProjectAnalyzer::with_config(config());
    assert_eq!(analyzer.performance_config(), config());
    analyzer.analyze_project("p".to_string(), three_files, analyze_pair).unwrap();
    let adjusted = analyzer.performance_config();
    assert_eq!(adjusted.thread_count, 2);
    assert_eq!(adjusted.cache_size, 200);
    assert!(adjusted.batch_size >= 10);
}

#[test]
fn analyzer_new_is_tuned_for_the_machine() {
    let analyzer = ProjectAnalyzer::new();
    let config = analyzer.performance_config();
    assert_eq!(config, PerformanceConfig::tuned_for(config.thread_count));
    assert!(analyzer.metrics().operations().is_empty());
}

fn artifact(path: &str, size: Option<u64>) -> ArtifactInfo {
    ArtifactInfo { path: path.to_string(), size }
}

#[test]
fn large_artifacts_are_reported() {
    let analyzer = ProjectAnalyzer::with_config(config());
    let artifacts = vec![
        artifact("target/small", Some(50_000_000)),
        artifact("target/big", Some(50_000_001)),
        artifact("target/gone", None),
        artifact("target/huge", Some(1_234_567_890)),
    ];
    let analysis: Result<ProjectAnalysis, AnalysisError> = analyzer.analyze_artifacts(&artifacts);
    let analysis = analysis.unwrap();
    assert_eq!(analysis.files_count, 4);
    assert_eq!(analysis.total_lines, 0);
    assert_eq!(analysis.issues.len(), 2);
    assert_eq!(analysis.issues[0].category, "Performance");
    assert_eq!(analysis.issues[0].description, "Artifact grande detectado: target/big (50 MB)");
    assert_eq!(analysis.issues[0].severity, IssueSeverity::Critical);
    assert_eq!(analysis.issues[0].file.as_deref(), Some("target/big"));
    assert_eq!(analysis.issues[0].line, None);
    assert_eq!(analysis.issues[1].description, "Artifact grande detectado: target/huge (1234 MB)");
    assert_eq!(analysis.suggestions.len(), 2);
    assert_eq!(analysis.suggestions[0].description, "Considerar optimizar el tamaño de target/big");
    assert_eq!(analysis.suggestions[0].impact, OptimizationImpact::High);
    assert_eq!(analysis.suggestions[0].effort, OptimizationEffort::Medium);
    assert_eq!(analysis.metrics.len(), 1);
    assert_eq!(analysis.metrics[0].name, "artifacts_count");
    assert_eq!(analysis.metrics[0].value, Ratio { numerator: 4, denominator: 1 });
    assert!(analysis.has_critical_issues());
    assert_eq!(analysis.critical_count(), 2);
}

#[test]
fn no_artifacts_no_findings() {
    let analyzer = ProjectAnalyzer::with_config(config());
    let analysis = analyzer.analyze_artifacts(&[]).unwrap();
    assert!(analysis.issues.is_empty());
    assert_eq!(analysis.metrics[0].value, Ratio { numerator: 0, denominator: 1 });
}

#[test]
fn critical_means_critical_severity() {
    let issue = |severity| AnalysisIssue {
        category: "c".to_string(),
        description: "d".to_string(),
        severity,
        file: None,
        line: None,
    };
    assert!(issue(IssueSeverity::Critical).is_critical());
    assert!(!issue(IssueSeverity::Warning).is_critical());
    assert!(!issue(IssueSeverity::Info).is_critical());
}
