//! Errors that callers tell apart by what they are, not by what they say.

use crate::text::join2;
use crate::time::Duration;
use vstd::prelude::*;

verus! {

/// Errors of the library's own operations.
#[derive(Debug)]
#[non_exhaustive]
pub enum Error {
    /// An operation did not end before its timeout.
    Timeout(Duration),
    /// Any other failure.
    Other(String),
}

/// An error of this library or another, with the error that caused it.
#[derive(Debug)]
pub enum AnyError {
    Own(Error),
    Foreign { text: String, source: Option<Box<AnyError>> },
}

/// How `Duration` of std shows a duration of `secs` seconds and `nanos`
/// nanoseconds.
pub uninterp spec fn duration_text(secs: u64, nanos: u32) -> Seq<char>;

/// `{:?}` on `std::time::Duration`, by a name. How the unit and the digits are
/// chosen is not stated.
#[verifier::external_body]
fn shown_duration(secs: u64, nanos: u32) -> (r: String)
    requires
        nanos < 1_000_000_000,
    ensures
        r@ == duration_text(secs, nanos),
{
    format!("{:?}", std::time::Duration::new(secs, nanos))
}

impl Error {
    /// A timeout, as any operation may return it.
    pub fn timeout(elapsed: Duration) -> (r: AnyError)
        ensures
            r == AnyError::Own(Error::Timeout(elapsed)),
    {
        AnyError::Own(Error::Timeout(elapsed))
    }

    /// What the error says to the user.
    pub fn message(&self) -> (r: String)
        requires
            *self matches Error::Timeout(d) ==> d.wf(),
        ensures
            r@ == (match *self {
                Error::Timeout(d) => "operation timed out after "@ + duration_text(
                    d.secs,
                    d.nanos,
                ),
                Error::Other(text) => text@,
            }),
    {
        match self {
            Error::Timeout(d) => join2(
                "operation timed out after ",
                &shown_duration(d.secs, d.nanos),
            ),
            Error::Other(text) => text.clone(),
        }
    }
}

/// The error at the end of a chain of causes.
pub open spec fn caused_by(err: AnyError) -> AnyError
    decreases err,
{
    match err {
        AnyError::Foreign { text, source: Some(cause) } => caused_by(*cause),
        _ => err,
    }
}

/// Whether an error, or one that caused it, is a timeout. Only the last of a chain
/// can be: a timeout has no cause of its own.
pub fn is_timeout(err: &AnyError) -> (r: bool)
    ensures
        r == (caused_by(*err) matches AnyError::Own(Error::Timeout(_))),
{
    let mut current: &AnyError = err;
    loop
        invariant
            caused_by(*current) == caused_by(*err),
        decreases *current,
    {
        match current {
            AnyError::Own(Error::Timeout(_)) => {
                return true;
            },
            AnyError::Own(Error::Other(_)) => {
                return false;
            },
            AnyError::Foreign { text: _, source: None } => {
                return false;
            },
            AnyError::Foreign { text: _, source: Some(cause) } => {
                current = &**cause;
            },
        }
    }
}

/// What an error wraps decides whether it is a timeout, however often it is
/// wrapped.
pub proof fn wrapping_keeps_timeouts(err: AnyError, text: String)
    ensures
        caused_by(AnyError::Foreign { text, source: Some(Box::new(err)) }) == caused_by(err),
{
}

} // verus!
