//! The error taxonomy: every failure path of the codec surfaces as one
//! reportable value that records the failing stage and the underlying cause.

use vstd::prelude::*;

verus! {

/// One reportable error value for the whole codec.
///
/// `DecodeMessage` wraps a wire-format parse failure, `EncodeMessage` a
/// codec-reported write failure, and `TryFromRaw` a domain-validation
/// failure during raw-to-domain conversion, together with the names of the
/// two types involved.
#[derive(Debug, PartialEq, Eq)]
pub enum Error {
    DecodeMessage { cause: String },
    EncodeMessage { cause: String },
    TryFromRaw { raw_type: String, domain_type: String, cause: String },
}

impl Error {
    /// The cause text carried by the error, whichever stage produced it.
    pub open spec fn spec_cause(self) -> Seq<char> {
        match self {
            Error::DecodeMessage { cause } => cause@,
            Error::EncodeMessage { cause } => cause@,
            Error::TryFromRaw { cause, .. } => cause@,
        }
    }

    /// Wrap a wire-format parse failure.
    pub fn decode_message(cause: String) -> (res: Error)
        ensures
            res matches Error::DecodeMessage { cause: c } && c == cause,
    {
        Error::DecodeMessage { cause }
    }

    /// Wrap a codec-reported write failure.
    pub fn encode_message(cause: String) -> (res: Error)
        ensures
            res matches Error::EncodeMessage { cause: c } && c == cause,
    {
        Error::EncodeMessage { cause }
    }

    /// Wrap a domain-validation failure, recording the raw and domain type
    /// names for diagnosability.
    pub fn try_from_raw(raw_type: String, domain_type: String, cause: String) -> (res: Error)
        ensures
            res matches Error::TryFromRaw { raw_type: r, domain_type: d, cause: c } && r
                == raw_type && d == domain_type && c == cause,
    {
        Error::TryFromRaw { raw_type, domain_type, cause }
    }

    /// The cause text, for reporting.
    pub fn cause(&self) -> (c: &String)
        ensures
            c@ == self.spec_cause(),
    {
        match self {
            Error::DecodeMessage { cause } => cause,
            Error::EncodeMessage { cause } => cause,
            Error::TryFromRaw { cause, .. } => cause,
        }
    }
}

} // verus!
