//! The ways in which a run fails.

use vstd::prelude::*;
use vstd::string::StringExecFns;

verus! {

/// Why a run did not start or did not complete. Every failure is fatal to the
/// run: nothing is retried and no record is skipped.
#[derive(Debug, Clone, Copy, PartialEq, Eq, Structural)]
pub enum RunError {
    /// The input could not be opened or read, or is not a sequence file.
    Source,
    /// The sequence or the quality of a record is not valid UTF-8.
    Decode,
    /// The output could not be created or written.
    Sink,
    /// Filtering was asked for without a header source.
    MissingHeaders,
    /// Filtering was asked for without an output destination.
    MissingOutput,
}

/// The kinds of failure.
#[derive(Debug, Clone, Copy, PartialEq, Eq, Structural)]
pub enum ErrorKind {
    Source,
    Decode,
    Sink,
    Configuration,
}

impl RunError {
    /// The kind of this failure.
    pub open spec fn spec_kind(self) -> ErrorKind {
        match self {
            RunError::Source => ErrorKind::Source,
            RunError::Decode => ErrorKind::Decode,
            RunError::Sink => ErrorKind::Sink,
            RunError::MissingHeaders => ErrorKind::Configuration,
            RunError::MissingOutput => ErrorKind::Configuration,
        }
    }

    /// The message shown for this failure.
    pub open spec fn spec_message(self) -> Seq<char> {
        match self {
            RunError::Source => "Failed to read input file"@,
            RunError::Decode => "Record is not valid UTF-8"@,
            RunError::Sink => "Failed to write output"@,
            RunError::MissingHeaders => "--headers is required for filtering mode"@,
            RunError::MissingOutput => "--output is required for filtering mode"@,
        }
    }

    /// The kind of this failure.
    #[verifier::when_used_as_spec(spec_kind)]
    pub fn kind(self) -> (kind: ErrorKind)
        ensures
            kind == self.spec_kind(),
    {
        match self {
            RunError::Source => ErrorKind::Source,
            RunError::Decode => ErrorKind::Decode,
            RunError::Sink => ErrorKind::Sink,
            RunError::MissingHeaders => ErrorKind::Configuration,
            RunError::MissingOutput => ErrorKind::Configuration,
        }
    }

    /// The message shown for this failure.
    pub fn message(self) -> (text: String)
        ensures
            text@ == self.spec_message(),
    {
        match self {
            RunError::Source => String::from_str("Failed to read input file"),
            RunError::Decode => String::from_str("Record is not valid UTF-8"),
            RunError::Sink => String::from_str("Failed to write output"),
            RunError::MissingHeaders => String::from_str("--headers is required for filtering mode"),
            RunError::MissingOutput => String::from_str("--output is required for filtering mode"),
        }
    }
}

} // verus!
