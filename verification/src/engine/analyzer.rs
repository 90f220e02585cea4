//! Per-file source analysis and its results.

use vstd::prelude::*;
pub use crate::engine::project::{ProjectAnalysis, ProjectAnalyzer};
use vstd::string::{is_ascii_spec_bytes, StringExecFns, StringSliceAdditionalSpecFns};
use crate::text::{
    count_lines, count_matches, count_newlines, decimal, find, first_match, is_first_match,
    lemma_first_match_is, lemma_line_count_bounded, line_count, line_of, matches_at, occurrences,
    occurs, push_decimal,
};

verus! {

/// How serious a finding is.
#[derive(Clone, Copy, Debug, PartialEq, Eq)]
pub enum IssueSeverity {
    Critical,
    Warning,
    Info,
}

/// How much an optimisation is expected to bring.
#[derive(Clone, Copy, Debug, PartialEq, Eq)]
pub enum OptimizationImpact {
    High,
    Medium,
    Low,
}

/// How much work an optimisation is expected to take.
#[derive(Clone, Copy, Debug, PartialEq, Eq)]
pub enum OptimizationEffort {
    Low,
    Medium,
    High,
}

/// A finding in the analysed sources.
#[derive(Clone, Debug)]
pub struct AnalysisIssue {
    pub category: String,
    pub description: String,
    pub severity: IssueSeverity,
    pub file: Option<String>,
    pub line: Option<usize>,
}

/// A suggested improvement.
#[derive(Clone, Debug)]
pub struct OptimizationSuggestion {
    pub description: String,
    pub impact: OptimizationImpact,
    pub effort: OptimizationEffort,
    pub file: Option<String>,
    pub line: Option<usize>,
}

/// What the analysis of one file found.
#[derive(Clone, Debug)]
pub struct FileAnalysisResult {
    pub lines: usize,
    pub issues: Vec<AnalysisIssue>,
    pub suggestions: Vec<OptimizationSuggestion>,
}

/// The mathematical counterpart of an `AnalysisIssue`.
pub struct IssueModel {
    pub category: Seq<char>,
    pub description: Seq<char>,
    pub severity: IssueSeverity,
    pub file: Option<Seq<char>>,
    pub line: Option<usize>,
}

/// The mathematical counterpart of an `OptimizationSuggestion`.
pub struct SuggestionModel {
    pub description: Seq<char>,
    pub impact: OptimizationImpact,
    pub effort: OptimizationEffort,
    pub file: Option<Seq<char>>,
    pub line: Option<usize>,
}

/// The mathematical counterpart of a `FileAnalysisResult`.
pub struct FileAnalysisModel {
    pub lines: usize,
    pub issues: Seq<IssueModel>,
    pub suggestions: Seq<SuggestionModel>,
}

impl DeepView for AnalysisIssue {
    type V = IssueModel;

    open spec fn deep_view(&self) -> IssueModel {
        IssueModel {
            category: self.category@,
            description: self.description@,
            severity: self.severity,
            file: self.file.deep_view(),
            line: self.line,
        }
    }
}

impl DeepView for OptimizationSuggestion {
    type V = SuggestionModel;

    open spec fn deep_view(&self) -> SuggestionModel {
        SuggestionModel {
            description: self.description@,
            impact: self.impact,
            effort: self.effort,
            file: self.file.deep_view(),
            line: self.line,
        }
    }
}

impl DeepView for FileAnalysisResult {
    type V = FileAnalysisModel;

    open spec fn deep_view(&self) -> FileAnalysisModel {
        FileAnalysisModel {
            lines: self.lines,
            issues: self.issues.deep_view(),
            suggestions: self.suggestions.deep_view(),
        }
    }
}

impl AnalysisIssue {
    /// The finding is of the highest severity.
    pub open spec fn spec_is_critical(&self) -> bool {
        self.severity == IssueSeverity::Critical
    }

    /// Whether the finding is of the highest severity.
    #[verifier::when_used_as_spec(spec_is_critical)]
    pub fn is_critical(&self) -> (r: bool)
        ensures
            r == self.spec_is_critical(),
    {
        match self.severity {
            IssueSeverity::Critical => true,
            _ => false,
        }
    }
}

impl FileAnalysisResult {
    /// The result for a file that contributes nothing: no lines, no
    /// findings. It stands for a file that could not be read.
    pub fn empty() -> (r: Self)
        ensures
            r.deep_view() == (FileAnalysisModel {
                lines: 0,
                issues: Seq::empty(),
                suggestions: Seq::empty(),
            }),
    {
        let r = FileAnalysisResult { lines: 0, issues: Vec::new(), suggestions: Vec::new() };
        assert(r.issues.deep_view() =~= Seq::<IssueModel>::empty());
        assert(r.suggestions.deep_view() =~= Seq::<SuggestionModel>::empty());
        r
    }
}

/// The marker of an open task.
pub open spec fn todo_marker() -> Seq<u8> {
    "TODO:".spec_bytes()
}

/// The marker of an unchecked unwrap.
pub open spec fn unwrap_marker() -> Seq<u8> {
    "unwrap()".spec_bytes()
}

/// The marker of an explicit panic.
pub open spec fn panic_marker() -> Seq<u8> {
    "panic!".spec_bytes()
}

/// The marker of code kept although unused.
pub open spec fn dead_code_marker() -> Seq<u8> {
    "#[allow(dead_code)]".spec_bytes()
}

/// More occurrences of the unwrap marker than this make the finding
/// critical.
pub const UNWRAP_TOLERANCE: usize = 5;

/// Files with more lines than this should be split urgently.
pub const HUGE_FILE_LINES: usize = 1000;

/// Files with more lines than this should be considered for a split.
pub const LARGE_FILE_LINES: usize = 500;

/// Files with more lines than this should have their organisation reviewed.
pub const LONG_FILE_LINES: usize = 200;

/// The finding for a marker that stands in `text`: it names the line on
/// which the marker stands first.
pub open spec fn marker_issue(
    category: Seq<char>,
    description: Seq<char>,
    severity: IssueSeverity,
    path: Seq<char>,
    text: Seq<u8>,
    marker: Seq<u8>,
) -> IssueModel {
    IssueModel {
        category,
        description,
        severity,
        file: Some(path),
        line: Some(line_of(text, first_match(text, marker)) as usize),
    }
}

/// The severity of the unwrap finding: critical above five occurrences.
pub open spec fn unwrap_severity(count: nat) -> IssueSeverity {
    if count > UNWRAP_TOLERANCE {
        IssueSeverity::Critical
    } else {
        IssueSeverity::Warning
    }
}

/// The findings for a file: one for open tasks, one for unwraps and one for
/// panics, each only where its marker stands in the text, in this order.
pub open spec fn expected_issues(path: Seq<char>, label: Seq<char>, text: Seq<u8>) -> Seq<
    IssueModel,
> {
    let todo = if occurs(text, todo_marker()) {
        seq![
            marker_issue(
                "Code Quality"@,
                "TODO encontrado en "@ + label,
                IssueSeverity::Info,
                path,
                text,
                todo_marker(),
            ),
        ]
    } else {
        Seq::empty()
    };
    let unwraps = if occurs(text, unwrap_marker()) {
        seq![
            marker_issue(
                "Safety"@,
                "uso de unwrap() ("@ + decimal(occurrences(text, unwrap_marker())) + " veces) en "@
                    + label,
                unwrap_severity(occurrences(text, unwrap_marker())),
                path,
                text,
                unwrap_marker(),
            ),
        ]
    } else {
        Seq::empty()
    };
    let panics = if occurs(text, panic_marker()) {
        seq![
            marker_issue(
                "Safety"@,
                "panic! macro encontrado en "@ + label,
                IssueSeverity::Critical,
                path,
                text,
                panic_marker(),
            ),
        ]
    } else {
        Seq::empty()
    };
    todo + unwraps + panics
}

/// The suggestion that the length of a file calls for, if any.
pub open spec fn size_suggestion(path: Seq<char>, lines: nat) -> Seq<SuggestionModel> {
    if lines > HUGE_FILE_LINES {
        seq![
            SuggestionModel {
                description: "Archivo muy grande ("@ + decimal(lines)
                    + " líneas) - Dividir urgentemente"@,
                impact: OptimizationImpact::High,
                effort: OptimizationEffort::High,
                file: Some(path),
                line: None,
            },
        ]
    } else if lines > LARGE_FILE_LINES {
        seq![
            SuggestionModel {
                description: "Considerar dividir archivo ("@ + decimal(lines) + " líneas)"@,
                impact: OptimizationImpact::Medium,
                effort: OptimizationEffort::Medium,
                file: Some(path),
                line: None,
            },
        ]
    } else if lines > LONG_FILE_LINES {
        seq![
            SuggestionModel {
                description: "Revisar organización ("@ + decimal(lines) + " líneas)"@,
                impact: OptimizationImpact::Low,
                effort: OptimizationEffort::Low,
                file: Some(path),
                line: None,
            },
        ]
    } else {
        Seq::empty()
    }
}

/// The suggestions for a file: one for its length, if it is long, and one
/// for code kept although unused, if its marker stands in the text.
pub open spec fn expected_suggestions(path: Seq<char>, text: Seq<u8>) -> Seq<SuggestionModel> {
    size_suggestion(path, line_count(text)) + if occurs(text, dead_code_marker()) {
        seq![
            SuggestionModel {
                description: "Revisar código marcado como dead_code"@,
                impact: OptimizationImpact::Low,
                effort: OptimizationEffort::Low,
                file: Some(path),
                line: None,
            },
        ]
    } else {
        Seq::empty()
    }
}

/// What the analysis of a file with the given text finds.
pub open spec fn expected_file_analysis(
    path: Seq<char>,
    label: Seq<char>,
    text: Seq<u8>,
) -> FileAnalysisModel {
    FileAnalysisModel {
        lines: line_count(text) as usize,
        issues: expected_issues(path, label, text),
        suggestions: expected_suggestions(path, text),
    }
}

/// The markers are not empty.
proof fn lemma_markers_not_empty()
    ensures
        todo_marker().len() == 5,
        unwrap_marker().len() == 8,
        panic_marker().len() == 6,
{
    reveal_strlit("TODO:");
    reveal_strlit("unwrap()");
    reveal_strlit("panic!");
    is_ascii_spec_bytes("TODO:");
    is_ascii_spec_bytes("unwrap()");
    is_ascii_spec_bytes("panic!");
}

/// Builds the finding for a marker that stands first at `position`.
fn issue_at(
    category: &str,
    description: String,
    severity: IssueSeverity,
    path: &str,
    text: &[u8],
    marker: &[u8],
    position: usize,
) -> (r: AnalysisIssue)
    requires
        is_first_match(text@, marker@, position as int),
        marker.len() > 0,
    ensures
        r.deep_view() == marker_issue(
            category@,
            description@,
            severity,
            path@,
            text@,
            marker@,
        ),
{
    proof {
        lemma_first_match_is(text@, marker@, position as int);
        assert(matches_at(text@, marker@, position as int));
        assert(position < text.len());
    }
    let before = count_newlines(text, position);
    AnalysisIssue {
        category: String::from_str(category),
        description,
        severity,
        file: Some(String::from_str(path)),
        line: Some(before + 1),
    }
}

/// Builds a suggestion for the file at `path`.
fn suggestion_for(
    description: String,
    impact: OptimizationImpact,
    effort: OptimizationEffort,
    path: &str,
) -> (r: OptimizationSuggestion)
    ensures
        r.deep_view() == (SuggestionModel {
            description: description@,
            impact,
            effort,
            file: Some(path@),
            line: None,
        }),
{
    OptimizationSuggestion {
        description,
        impact,
        effort,
        file: Some(String::from_str(path)),
        line: None,
    }
}

/// A text between two fixed parts, with a number in the middle.
fn numbered_text(before: &str, n: usize, after: &str) -> (r: String)
    ensures
        r@ == before@ + decimal(n as nat) + after@,
{
    let mut out = String::from_str(before);
    push_decimal(&mut out, n as u64);
    out.append(after);
    out
}

/// Analyses the text of one source file.
///
/// `path` names the file in the findings' `file` field, `label` is the name
/// under which the descriptions mention it.
pub fn analyze_source(path: &str, label: &str, content: &str) -> (r: FileAnalysisResult)
    ensures
        r.deep_view() == expected_file_analysis(path@, label@, content.spec_bytes()),
{
    let text = content.as_bytes();
    let lines = count_lines(text);
    let mut issues: Vec<AnalysisIssue> = Vec::new();
    let mut suggestions: Vec<OptimizationSuggestion> = Vec::new();
    proof {
        lemma_markers_not_empty();
        lemma_line_count_bounded(text@);
        assert(issues.deep_view() =~= Seq::<IssueModel>::empty());
    }
    let todo = "TODO:".as_bytes();
    match find(text, todo) {
        Some(position) => {
            let description = String::from_str("TODO encontrado en ").concat(label);
            let issue = issue_at(
                "Code Quality",
                description,
                IssueSeverity::Info,
                path,
                text,
                todo,
                position,
            );
            issues.push(issue);
        },
        None => {},
    }
    let unwrap = "unwrap()".as_bytes();
    match find(text, unwrap) {
        Some(position) => {
            let count = count_matches(text, unwrap);
            let severity = if count > UNWRAP_TOLERANCE {
                IssueSeverity::Critical
            } else {
                IssueSeverity::Warning
            };
            let description = numbered_text("uso de unwrap() (", count, " veces) en ").concat(
                label,
            );
            let issue = issue_at("Safety", description, severity, path, text, unwrap, position);
            issues.push(issue);
        },
        None => {},
    }
    let panic = "panic!".as_bytes();
    match find(text, panic) {
        Some(position) => {
            let description = String::from_str("panic! macro encontrado en ").concat(label);
            let issue = issue_at(
                "Safety",
                description,
                IssueSeverity::Critical,
                path,
                text,
                panic,
                position,
            );
            issues.push(issue);
        },
        None => {},
    }
    proof {
        assert(issues.deep_view() =~= expected_issues(path@, label@, text@));
        assert(suggestions.deep_view() =~= Seq::<SuggestionModel>::empty());
    }
    if lines > HUGE_FILE_LINES {
        suggestions.push(
            suggestion_for(
                numbered_text("Archivo muy grande (", lines, " líneas) - Dividir urgentemente"),
                OptimizationImpact::High,
                OptimizationEffort::High,
                path,
            ),
        );
    } else if lines > LARGE_FILE_LINES {
        suggestions.push(
            suggestion_for(
                numbered_text("Considerar dividir archivo (", lines, " líneas)"),
                OptimizationImpact::Medium,
                OptimizationEffort::Medium,
                path,
            ),
        );
    } else if lines > LONG_FILE_LINES {
        suggestions.push(
            suggestion_for(
                numbered_text("Revisar organización (", lines, " líneas)"),
                OptimizationImpact::Low,
                OptimizationEffort::Low,
                path,
            ),
        );
    }
    proof {
        assert(suggestions.deep_view() =~= size_suggestion(path@, line_count(text@)));
    }
    match find(text, "#[allow(dead_code)]".as_bytes()) {
        Some(_) => {
            suggestions.push(
                suggestion_for(
                    String::from_str("Revisar código marcado como dead_code"),
                    OptimizationImpact::Low,
                    OptimizationEffort::Low,
                    path,
                ),
            );
        },
        None => {},
    }
    proof {
        assert(suggestions.deep_view() =~= expected_suggestions(path@, text@));
    }
    FileAnalysisResult { lines, issues, suggestions }
}

} // verus!
