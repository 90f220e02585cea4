//! What the cargo runner is configured with, and the estimate of the work
//! that a build has to do.

use vstd::prelude::*;

verus! {

/// The number of build units assumed where the workspace cannot be
/// inspected.
pub const FALLBACK_CARGO_UNITS: usize = 100;

/// The stream that a line of cargo's output came from.
#[derive(Clone, Copy, Debug, PartialEq, Eq)]
pub enum CargoStream {
    Stdout,
    Stderr,
}

/// Runs cargo, in a working directory of its own where one is set.
#[derive(Clone, Debug)]
pub struct CargoExecutor {
    working_dir: Option<String>,
}

/// What an inspection of the workspace found: the number of nodes of the
/// resolved dependency graph, where it was resolved, and the number of
/// packages.
#[derive(Clone, Copy, Debug)]
pub struct WorkspaceShape {
    pub resolved_nodes: Option<usize>,
    pub packages: usize,
}

/// The number of build units of a workspace: the nodes of its dependency
/// graph where there are any, else its packages, and at least one; one
/// hundred where the workspace could not be inspected.
pub open spec fn cargo_units(shape: Option<WorkspaceShape>) -> usize {
    match shape {
        Some(found) => match found.resolved_nodes {
            Some(nodes) if nodes > 0 => nodes,
            _ => if found.packages < 1 {
                1
            } else {
                found.packages
            },
        },
        None => FALLBACK_CARGO_UNITS,
    }
}

impl CargoExecutor {
    /// The working directory, where one is set.
    pub closed spec fn dir(&self) -> Option<Seq<char>> {
        match self.working_dir {
            Some(d) => Some(d@),
            None => None,
        }
    }

    /// A runner in the current directory.
    pub fn new() -> (r: Self)
        ensures
            r.dir() is None,
    {
        CargoExecutor { working_dir: None }
    }

    /// This runner, in the directory `dir`.
    pub fn with_working_dir(self, dir: String) -> (r: Self)
        ensures
            r.dir() == Some(dir@),
    {
        CargoExecutor { working_dir: Some(dir) }
    }

    /// The working directory, where one is set.
    pub fn working_dir(&self) -> (r: Option<&String>)
        ensures
            match r {
                Some(d) => self.dir() == Some(d@),
                None => self.dir() is None,
            },
    {
        self.working_dir.as_ref()
    }
}

/// Estimates the number of build units from what an inspection of the
/// workspace found, if it found anything.
pub fn estimate_cargo_units(shape: Option<WorkspaceShape>) -> (r: usize)
    ensures
        r == cargo_units(shape),
        r >= 1,
{
    match shape {
        Some(found) => {
            match found.resolved_nodes {
                Some(nodes) => {
                    if nodes > 0 {
                        return nodes;
                    }
                },
                None => {},
            }
            if found.packages < 1 {
                1
            } else {
                found.packages
            }
        },
        None => FALLBACK_CARGO_UNITS,
    }
}

} // verus!
