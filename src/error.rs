use vstd::prelude::*;

verus! {

/// The errors that end a scan.
#[derive(Clone, Copy, Debug, PartialEq, Eq, Structural)]
pub enum ScanError {
    /// A file path reported by the repository is not valid UTF-8.
    InvalidPath,
    /// The TODO pattern could not be compiled.
    InvalidPattern,
}

impl ScanError {
    /// A human-readable description of the error.
    pub fn message(&self) -> (r: &'static str) {
        match self {
            ScanError::InvalidPath => "Invalid utf8 path",
            ScanError::InvalidPattern => "Could not compile the TODO pattern",
        }
    }
}

} // verus!
