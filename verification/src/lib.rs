//! Sorts media files into date-stamped directories.
//!
//! The library determines a file's creation date from embedded metadata or
//! from its filename, reconciles the two sources, locates or names the
//! destination directory, and decides by content hashing whether the file is
//! a duplicate, a rename candidate, or a fresh placement.  All filesystem
//! effects are returned as explicit values so that a caller can execute them
//! (or suppress them in a dry run).

pub mod date;
pub mod engine;
pub mod extract;
pub mod hashing;
pub mod laws;
pub mod options;
pub mod resolver;
pub mod stats;
pub mod tally;
pub mod text;
