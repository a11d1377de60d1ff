//! The ways in which a run can fail.

use vstd::prelude::*;
use vstd::string::StringExecFns;

verus! {

/// Why a run stopped. Every error is fatal: nothing is recovered locally.
#[derive(Debug, Clone, Copy, PartialEq, Eq, Structural)]
pub enum ErrorKind {
    /// A binary could not be opened or read.
    Io,
    /// The file does not parse as a recognized object format (ELF or PE).
    Format,
    /// The object parses, but its architecture is not x86-64, or its
    /// optional header tells of a variant that the loader declines.
    Unsupported,
    /// A report could not be written.
    Report,
}

impl ErrorKind {
    /// One line that says what went wrong.
    pub open spec fn message_of(self) -> Seq<char> {
        match self {
            ErrorKind::Io => "cannot read the binary"@,
            ErrorKind::Format => "not a recognized object file"@,
            ErrorKind::Unsupported => "unsupported architecture"@,
            ErrorKind::Report => "cannot write the report"@,
        }
    }

    /// One line that says what went wrong.
    pub fn message(&self) -> (out: String)
        ensures
            out@ == self.message_of(),
    {
        match self {
            ErrorKind::Io => String::from_str("cannot read the binary"),
            ErrorKind::Format => String::from_str("not a recognized object file"),
            ErrorKind::Unsupported => String::from_str("unsupported architecture"),
            ErrorKind::Report => String::from_str("cannot write the report"),
        }
    }
}

} // verus!
