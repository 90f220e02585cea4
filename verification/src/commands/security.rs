//! The security command: its severity levels and the score of an audit.

use vstd::prelude::*;
use vstd::string::StringExecFns;

verus! {

/// The score of an audit without findings.
pub const FULL_SCORE: u64 = 100;

/// The options of the security command.
#[derive(Clone, Debug)]
pub struct SecurityCommand {
    pub audit: bool,
    pub deps: bool,
    pub code: bool,
    pub config_check: bool,
    pub cargo_audit: bool,
    pub secrets: bool,
    pub report: bool,
    pub fix: bool,
    /// The lowest severity that is reported: low, medium, high or critical.
    pub level: String,
    /// The format of the report.
    pub format: String,
}

/// How severe a finding is, from the least to the most severe.
#[derive(Clone, Copy, Debug, PartialEq, Eq, Structural)]
pub enum SecuritySeverity {
    Info,
    Low,
    Medium,
    High,
    Critical,
}

/// The severity that a level name stands for: medium for every name that is
/// not `low`, `high` or `critical`.
pub open spec fn severity_named(level: Seq<char>) -> SecuritySeverity {
    if level == "low"@ {
        SecuritySeverity::Low
    } else if level == "high"@ {
        SecuritySeverity::High
    } else if level == "critical"@ {
        SecuritySeverity::Critical
    } else {
        SecuritySeverity::Medium
    }
}

/// What a finding of the given severity takes off the score.
pub open spec fn penalty_of(severity: SecuritySeverity) -> nat {
    match severity {
        SecuritySeverity::Critical => 25,
        SecuritySeverity::High => 15,
        SecuritySeverity::Medium => 8,
        SecuritySeverity::Low => 3,
        SecuritySeverity::Info => 1,
    }
}

/// What the findings take off the score together.
pub open spec fn total_penalty(findings: Seq<SecuritySeverity>) -> nat
    decreases findings.len(),
{
    if findings.len() == 0 {
        0
    } else {
        total_penalty(findings.drop_last()) + penalty_of(findings.last())
    }
}

/// The score of an audit: one hundred less the penalties of its findings,
/// and never below zero.
pub open spec fn score_of(findings: Seq<SecuritySeverity>) -> nat {
    if total_penalty(findings) >= FULL_SCORE {
        0
    } else {
        (FULL_SCORE - total_penalty(findings)) as nat
    }
}

impl SecuritySeverity {
    /// The position of the severity among the five, from 1 for the least
    /// severe to 5 for the most severe.
    pub open spec fn spec_rank(self) -> nat {
        match self {
            SecuritySeverity::Info => 1,
            SecuritySeverity::Low => 2,
            SecuritySeverity::Medium => 3,
            SecuritySeverity::High => 4,
            SecuritySeverity::Critical => 5,
        }
    }

    /// The position of the severity among the five.
    pub fn rank(self) -> (r: u8)
        ensures
            r as nat == self.spec_rank(),
    {
        match self {
            SecuritySeverity::Info => 1,
            SecuritySeverity::Low => 2,
            SecuritySeverity::Medium => 3,
            SecuritySeverity::High => 4,
            SecuritySeverity::Critical => 5,
        }
    }

    /// Whether the severity is at least `floor`.
    pub fn at_least(self, floor: SecuritySeverity) -> (r: bool)
        ensures
            r == (self.spec_rank() >= floor.spec_rank()),
    {
        self.rank() >= floor.rank()
    }
}

impl SecurityCommand {
    /// The lowest severity that the command reports.
    pub fn parse_severity_level(&self) -> (r: SecuritySeverity)
        ensures
            r == severity_named(self.level@),
    {
        if self.level == String::from_str("low") {
            SecuritySeverity::Low
        } else if self.level == String::from_str("high") {
            SecuritySeverity::High
        } else if self.level == String::from_str("critical") {
            SecuritySeverity::Critical
        } else {
            SecuritySeverity::Medium
        }
    }

    /// The score of an audit with the given findings.
    pub fn calculate_security_score(&self, findings: &[SecuritySeverity]) -> (r: u64)
        ensures
            r as nat == score_of(findings@),
    {
        let mut score: u64 = FULL_SCORE;
        let mut i: usize = 0;
        proof {
            assert(findings@.take(0) =~= Seq::<SecuritySeverity>::empty());
        }
        while i < findings.len()
            invariant
                i <= findings.len(),
                score as nat == score_of(findings@.take(i as int)),
                score <= FULL_SCORE,
            decreases findings.len() - i,
        {
            proof {
                assert(findings@.take(i + 1).drop_last() =~= findings@.take(i as int));
            }
            let penalty: u64 = match findings[i] {
                SecuritySeverity::Critical => 25,
                SecuritySeverity::High => 15,
                SecuritySeverity::Medium => 8,
                SecuritySeverity::Low => 3,
                SecuritySeverity::Info => 1,
            };
            score = if score > penalty {
                score - penalty
            } else {
                0
            };
            i = i + 1;
        }
        proof {
            assert(findings@.take(findings.len() as int) =~= findings@);
        }
        score
    }
}

} // verus!
