//! The failure taxonomy of a conversion job.

use vstd::prelude::*;
use vstd::string::*;

verus! {

/// Why a conversion request or a running job failed.
///
/// `InvalidInput` is raised before any process is started and is always
/// recoverable by correcting the request.  `Io` is a filesystem failure,
/// `Shell` a failure to locate or start an external tool, `Worker` an external
/// tool that ran and failed.
#[derive(Debug)]
pub enum ConversionError {
    InvalidInput(String),
    Io(String),
    Shell(String),
    Worker(String),
}

impl ConversionError {
    /// The reason carried by the error.
    pub open spec fn reason(&self) -> Seq<char> {
        match self {
            ConversionError::InvalidInput(m) => m@,
            ConversionError::Io(m) => m@,
            ConversionError::Shell(m) => m@,
            ConversionError::Worker(m) => m@,
        }
    }

    /// The label that a rendered error starts with.
    pub open spec fn label(&self) -> Seq<char> {
        match self {
            ConversionError::InvalidInput(_) => "Invalid input: "@,
            ConversionError::Io(_) => "IO error: "@,
            ConversionError::Shell(_) => "Shell error: "@,
            ConversionError::Worker(_) => "Worker error: "@,
        }
    }

    /// Whether the error was raised before any process was started.
    pub fn is_invalid_input(&self) -> (r: bool)
        ensures
            r == (self is InvalidInput),
    {
        match self {
            ConversionError::InvalidInput(_) => true,
            _ => false,
        }
    }

    /// The error as one line of text: its label, then its reason.
    pub fn describe(&self) -> (r: String)
        ensures
            r@ == self.label() + self.reason(),
    {
        match self {
            ConversionError::InvalidInput(m) => String::from_str("Invalid input: ").concat(
                m.as_str(),
            ),
            ConversionError::Io(m) => String::from_str("IO error: ").concat(m.as_str()),
            ConversionError::Shell(m) => String::from_str("Shell error: ").concat(m.as_str()),
            ConversionError::Worker(m) => String::from_str("Worker error: ").concat(m.as_str()),
        }
    }
}

/// An `InvalidInput` error whose reason is `prefix` followed by `detail`.
pub fn invalid_input(prefix: &str, detail: &str) -> (e: ConversionError)
    ensures
        e is InvalidInput,
        e.reason() == prefix@ + detail@,
{
    ConversionError::InvalidInput(String::from_str(prefix).concat(detail))
}

} // verus!
