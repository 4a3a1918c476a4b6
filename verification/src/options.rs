//! The immutable configuration of a run.

use vstd::prelude::*;

verus! {

/// Configuration handed to the engine for every file of a run.
pub struct Options {
    /// Root directory that is scanned for files.
    pub dir_from: String,
    /// Root directory that files are placed under.
    pub dir_to: String,
    /// Copy files instead of moving them.
    pub copy: bool,
    /// Compute every decision but perform no filesystem mutation.
    pub dry_run: bool,
    /// Descend into all subdirectories.
    pub recursive: bool,
    /// Bound on the descent depth when not fully recursive.
    pub max_depth: u32,
    /// Print diagnostic detail; never affects control flow.
    pub verbose: bool,
    /// On a date conflict, trust the metadata date and rename the file,
    /// instead of skipping it.
    pub prefer_metadata: bool,
    /// Only tally file extensions; suppress placement entirely.
    pub count_extensions: bool,
}

} // verus!
