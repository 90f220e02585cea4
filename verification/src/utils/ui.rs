//! Step summaries: what a command reports of each of its steps.

use vstd::prelude::*;
use vstd::string::{StrSliceExecFns, StringExecFns};

verus! {

/// How a step ended. Durations are in nanoseconds.
#[derive(Clone, Debug, PartialEq, Eq)]
pub enum StepState {
    /// The step succeeded after the given time.
    Success(u128),
    /// The step failed after the given time, with a message.
    Failed(u128, String),
    /// The step was not run.
    Skipped,
}

/// A step and how it ended.
#[derive(Clone, Debug, PartialEq, Eq)]
pub struct StepSummary {
    pub label: String,
    pub state: StepState,
}

/// The mark that stands for what `truncate` cut off.
pub open spec fn ellipsis() -> Seq<char> {
    "…"@
}

/// `value` cut to at most `max` characters: unchanged if it fits, else its
/// first `max - 1` characters (none for a `max` of zero) and the ellipsis.
pub open spec fn truncated(value: Seq<char>, max: nat) -> Seq<char> {
    if value.len() <= max {
        value
    } else if max == 0 {
        ellipsis()
    } else {
        value.take(max - 1) + ellipsis()
    }
}

impl StepSummary {
    /// The summary of a step that succeeded after `duration` nanoseconds.
    pub fn success(label: String, duration: u128) -> (r: Self)
        ensures
            r.label == label,
            r.state == StepState::Success(duration),
    {
        StepSummary { label, state: StepState::Success(duration) }
    }

    /// The summary of a step that failed after `duration` nanoseconds with
    /// the message `msg`.
    pub fn failed(label: String, duration: u128, msg: String) -> (r: Self)
        ensures
            r.label == label,
            r.state == StepState::Failed(duration, msg),
    {
        StepSummary { label, state: StepState::Failed(duration, msg) }
    }

    /// The summary of a step that was not run.
    pub fn skipped(label: String) -> (r: Self)
        ensures
            r.label == label,
            r.state == StepState::Skipped,
    {
        StepSummary { label, state: StepState::Skipped }
    }
}

/// Cuts `value` to at most `max` characters, marking the cut with an
/// ellipsis.
pub fn truncate(value: &str, max: usize) -> (r: String)
    ensures
        r@ == truncated(value@, max as nat),
{
    if value.unicode_len() <= max {
        String::from_str(value)
    } else {
        let keep = if max == 0 {
            0
        } else {
            max - 1
        };
        let head = value.substring_char(0, keep);
        proof {
            assert(value@.subrange(0, keep as int) =~= value@.take(keep as int));
            if max == 0 {
                assert(value@.take(0) + ellipsis() =~= ellipsis());
            }
        }
        String::from_str(head).concat("…")
    }
}

} // verus!
