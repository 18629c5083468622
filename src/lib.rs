//! Finds the TODO markers in the uncommitted work of a git repository: in
//! the lines that the working directory adds or changes against the head
//! commit, and in every line of the files that are new and untracked.

pub mod diff_source;
pub mod error;
pub mod laws;
pub mod matcher;
pub mod record;
pub mod scan;
pub mod text;
pub mod untracked;
