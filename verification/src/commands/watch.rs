//! The watch command: its options and the shortening of what it prints.

use vstd::prelude::*;
use crate::utils::ui::truncated;

verus! {

/// The options of the watch command.
#[derive(Clone, Debug)]
pub struct WatchCommand {
    /// The command to run on every change.
    pub command: String,
    /// The arguments of the command.
    pub args: Vec<String>,
    /// The paths to watch.
    pub paths: Vec<String>,
    /// How long to wait for further changes, in milliseconds.
    pub debounce_ms: u64,
    /// Do not run the command before the first change.
    pub skip_initial: bool,
}

/// The paths that are watched where none are given.
pub open spec fn default_watch_paths() -> Seq<Seq<char>> {
    seq!["src"@, "Cargo.toml"@]
}

impl WatchCommand {
    /// The paths to watch: those given, or the sources and the manifest
    /// where none are given.
    pub fn watch_paths(&self) -> (r: Vec<String>)
        ensures
            r@.len() == if self.paths@.len() == 0 {
                2
            } else {
                self.paths@.len()
            },
            forall|i: int|
                0 <= i < r@.len() ==> (#[trigger] r@[i])@ == if self.paths@.len() == 0 {
                    default_watch_paths()[i]
                } else {
                    self.paths@[i]@
                },
    {
        let mut out: Vec<String> = Vec::new();
        if self.paths.len() == 0 {
            out.push("src".to_owned());
            out.push("Cargo.toml".to_owned());
            return out;
        }
        let mut i: usize = 0;
        while i < self.paths.len()
            invariant
                i <= self.paths.len(),
                self.paths@.len() > 0,
                out@.len() == i,
                forall|j: int| 0 <= j < i ==> (#[trigger] out@[j])@ == self.paths@[j]@,
            decreases self.paths.len() - i,
        {
            out.push(self.paths[i].clone());
            i = i + 1;
        }
        out
    }
}

/// Cuts `input` to at most `len` characters, marking the cut with an
/// ellipsis.
pub fn truncate(input: &str, len: usize) -> (r: String)
    ensures
        r@ == truncated(input@, len as nat),
{
    crate::utils::ui::truncate(input, len)
}

} // verus!
