//! Error type shared by every decoder in the crate.

use vstd::prelude::*;
use vstd::string::StringExecFns;

verus! {

/// Broad classification of a failure, patterned after common RPC status
/// codes. The decoders in this crate use `OutOfRange` for buffer underruns,
/// `NotFound` for a missing table tag, `Unimplemented` for an unsupported
/// cmap subtable format, and `InvalidArgument` for structurally malformed
/// table data.
#[derive(Clone, Copy, Debug, PartialEq, Eq)]
pub enum ErrorCode {
    Cancelled,
    Unknown,
    InvalidArgument,
    DeadlineExceeded,
    NotFound,
    AlreadyExists,
    PermissionDenied,
    ResourceExhausted,
    FailedPrecondition,
    Aborted,
    OutOfRange,
    Unimplemented,
    Internal,
    Unavailable,
    DataLoss,
    Unauthenticated,
}

/// An error with a classification code, a human-readable message and an
/// optional underlying cause.
#[derive(Debug)]
pub struct CapyError {
    pub code: ErrorCode,
    pub message: String,
    pub source: Option<Box<CapyError>>,
}

impl CapyError {
    /// Builds an error from a code and a message, with no underlying cause.
    pub fn new(code: ErrorCode, message: &'static str) -> (e: CapyError)
        ensures
            e.code == code,
            e.message@ == message@,
            e.source is None,
    {
        CapyError { code, message: String::from_str(message), source: None }
    }

    /// Builds an error that records another error as its underlying cause.
    pub fn with_source(code: ErrorCode, message: &'static str, source: CapyError) -> (e: CapyError)
        ensures
            e.code == code,
            e.message@ == message@,
            e.source matches Some(s) && *s == source,
    {
        CapyError { code, message: String::from_str(message), source: Some(Box::new(source)) }
    }

    /// Prepends a context phrase to the message, keeping code and cause.
    pub fn with_context(self, extra_context: &str) -> (e: CapyError)
        ensures
            e.code == self.code,
            e.message@ == extra_context@ + ": "@ + self.message@,
            e.source == self.source,
    {
        let mut message = String::from_str(extra_context);
        message.append(": ");
        message.append(self.message.as_str());
        CapyError { code: self.code, message, source: self.source }
    }
}

} // verus!
