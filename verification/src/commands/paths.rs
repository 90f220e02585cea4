//! The paths command: counting markers in the sources it is pointed at.

use vstd::prelude::*;
use vstd::string::{StrSliceExecFns, StringSliceAdditionalSpecFns};
use crate::numeric::{saturate_to_u64, saturate_u64};
use crate::text::{count_matches, occurrences};

verus! {

/// The options of the paths command.
#[derive(Clone, Debug)]
pub struct PathsCommand {
    /// The paths or directories to check.
    pub paths: Vec<String>,
    /// Print the result as JSON.
    pub json: bool,
    /// Check the crates that are found.
    pub cargo_check: bool,
}

/// The number of times that `needle` is found in `haystack` from left to
/// right without overlap. The empty needle is found before every character
/// and at the end; that count is capped at the largest `u64`.
pub open spec fn occurrence_count(haystack: &str, needle: &str) -> nat {
    if needle@.len() == 0 {
        saturate_u64(haystack@.len() + 1)
    } else {
        occurrences(haystack.spec_bytes(), needle.spec_bytes())
    }
}

/// Counts the occurrences of `needle` in `haystack`.
pub fn count_occurrences(haystack: &str, needle: &str) -> (r: u64)
    ensures
        r as nat == occurrence_count(haystack, needle),
{
    if needle.is_empty() {
        saturate_to_u64(haystack.unicode_len() as u128 + 1)
    } else {
        count_matches(haystack.as_bytes(), needle.as_bytes()) as u64
    }
}

} // verus!
