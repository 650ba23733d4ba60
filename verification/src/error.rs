//! The error type shared by every parsing and data-access function.
use vstd::prelude::*;
use enough::StopReason;

verus! {

/// `enough::StopReason`: why a cooperative stop was requested. Nothing is
/// claimed of its values; they are handed through unchanged from the
/// caller's stop callback.
#[verifier::external_type_specification]
#[verifier::external_body]
pub struct ExStopReason(StopReason);

/// Describes parser failures.
#[derive(Debug)]
pub enum Error {
    /// Corrupt or malformed data.
    InvalidData(&'static str),
    /// Well-formed data that uses a feature this parser does not handle.
    Unsupported(&'static str),
    /// The data ended inside a field or a declared length.
    UnexpectedEOF,
    /// Kept for callers that expect a movie box; never produced here.
    NoMoov,
    /// An allocation failed.
    OutOfMemory,
    /// A configured quota was exceeded; the message names the quota.
    ResourceLimitExceeded(&'static str),
    /// The stop callback asked to stop.
    Stopped(StopReason),
}

/// The outcome `r` of a function that allocates, held against the outcome
/// `expected` that the format prescribes: they agree, unless memory ran out.
/// Such a function never reports a stop.
pub open spec fn agrees<T: DeepView>(r: Result<T, Error>, expected: Result<T::V, Error>) -> bool {
    match r {
        Ok(v) => expected == Ok::<T::V, Error>(v.deep_view()),
        Err(e) => !(e is Stopped) && (e is OutOfMemory || expected == Err::<T::V, Error>(e)),
    }
}

/// Like [`agrees`], for a function that also polls a stop callback.
pub open spec fn agrees_unless_stopped<T: DeepView>(
    r: Result<T, Error>,
    expected: Result<T::V, Error>,
) -> bool {
    match r {
        Ok(v) => expected == Ok::<T::V, Error>(v.deep_view()),
        Err(e) => e is OutOfMemory || e is Stopped || expected == Err::<T::V, Error>(e),
    }
}

impl Error {
    /// The static message carried by the error, or a fixed word for the
    /// variants that carry none.
    pub open spec fn spec_message(self) -> &'static str {
        match self {
            Error::InvalidData(s) => s,
            Error::Unsupported(s) => s,
            Error::ResourceLimitExceeded(s) => s,
            Error::UnexpectedEOF => "EOF",
            Error::NoMoov => "Missing Moov box",
            Error::OutOfMemory => "OOM",
            Error::Stopped(_) => "Stopped",
        }
    }

    /// A short description of the failure.
    pub fn message(&self) -> (r: &'static str)
        ensures
            r == self.spec_message(),
    {
        match self {
            Error::InvalidData(s) => s,
            Error::Unsupported(s) => s,
            Error::ResourceLimitExceeded(s) => s,
            Error::UnexpectedEOF => "EOF",
            Error::NoMoov => "Missing Moov box",
            Error::OutOfMemory => "OOM",
            Error::Stopped(_) => "Stopped",
        }
    }
}

} // verus!
