//! Faults that response construction can recover into an error response.
use vstd::prelude::*;

verus! {

/// A data-dependent fault met while building a response.  Every such fault
/// is recovered locally into a well-formed error response carrying the
/// fault; none escapes as a panic.
#[derive(Clone, Copy, PartialEq, Eq, Structural, Debug)]
pub enum Error {
    /// A header name held a character outside the token set, or was empty.
    InvalidHeaderName,
    /// A header value held a character the container cannot store as text.
    InvalidHeaderValue,
    /// The header container was full and refused another value.
    HeaderCapacity,
    /// A structured body could not be serialized.
    Serialization,
    /// A staged cookie did not format into a storable header value.
    InvalidCookie,
}

impl Error {
    /// The status code of the response this fault converts into.
    pub open spec fn spec_status(self) -> u16 {
        500
    }

    /// A short fixed description of the fault.
    pub fn message(&self) -> &'static str {
        match self {
            Error::InvalidHeaderName => "invalid header name",
            Error::InvalidHeaderValue => "invalid header value",
            Error::HeaderCapacity => "too many headers",
            Error::Serialization => "serialization failed",
            Error::InvalidCookie => "invalid cookie",
        }
    }
}

} // verus!
