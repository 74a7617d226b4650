use vstd::prelude::*;

verus! {

/// Failures that abort a whole run: no coherent code set could be read.
#[derive(Debug, Clone, Copy, PartialEq, Eq, Structural)]
pub enum ChainError {
    /// The requested block cannot be resolved by the node.
    UnknownBlock,
    /// A storage entry the run needs is absent (or cannot be decoded).
    MissingState,
    /// Live parachains and their code entries disagree.
    Inconsistent,
}

/// Failures of one code blob; they are recorded for that parachain only.
#[derive(Debug, Clone, Copy, PartialEq, Eq, Structural)]
pub enum CodeError {
    /// Decompression would exceed the size bound.
    Oversized,
    /// The bytes are neither plain nor valid compressed code.
    Malformed,
}

/// Failures reported by the preparation host for one submission.
#[derive(Debug, Clone, PartialEq, Eq)]
pub enum HostError {
    /// The host did not accept the submission: fatal to the run.
    Unavailable,
    /// The code could not be prepared; the text says why.
    PreparationFailed(String),
    /// The preparation did not finish within its timeout.
    Timeout,
}

impl ChainError {
    /// A human-readable description.
    pub fn message(&self) -> (r: String) {
        match self {
            ChainError::UnknownBlock => String::from_str("unknown block"),
            ChainError::MissingState => String::from_str("missing chain state"),
            ChainError::Inconsistent => String::from_str("inconsistent chain state"),
        }
    }
}

impl CodeError {
    /// A human-readable description.
    pub fn message(&self) -> (r: String) {
        match self {
            CodeError::Oversized => String::from_str("code exceeds the decompression bound"),
            CodeError::Malformed => String::from_str("code blob has an invalid format"),
        }
    }
}

} // verus!
