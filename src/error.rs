use vstd::prelude::*;

verus! {

/// Failures that the hub distinguishes.
#[derive(Debug, Clone, Copy, PartialEq, Eq, Structural)]
pub enum Error {
    /// The handshake frame was missing, not text, or did not carry the secret.
    AuthenticationFailed,
    /// No store connection could be had (pool exhausted or connection error).
    StoreUnavailable,
    /// A statement failed for a reason other than a uniqueness violation.
    QueryFailed,
    /// A concurrent insert of the same identifier won the race.
    UniquenessViolation,
    /// An event could not be encoded for transport.
    SerializationFailed,
}

/// The SQLSTATE class-23 code that a relational store raises when a
/// unique constraint rejects a row.
pub open spec fn unique_violation_code() -> Seq<char> {
    "23505"@
}

/// The error that a failed statement stands for, given the SQLSTATE code
/// that the store attached to it, if any.
pub open spec fn query_error_kind(code: Option<Seq<char>>) -> Error {
    match code {
        Some(c) => if c == unique_violation_code() {
            Error::UniquenessViolation
        } else {
            Error::QueryFailed
        },
        None => Error::QueryFailed,
    }
}

impl Error {
    /// Classifies a failed statement by the SQLSTATE code the store reported.
    pub fn from_sql_state(code: Option<&str>) -> (r: Error)
        ensures
            r == query_error_kind(
                match code {
                    Some(c) => Some(c@),
                    None => None,
                },
            ),
    {
        match code {
            Some(c) => {
                let got = c.to_owned();
                let expected = "23505".to_owned();
                if got == expected {
                    Error::UniquenessViolation
                } else {
                    Error::QueryFailed
                }
            },
            None => Error::QueryFailed,
        }
    }

    /// A short human-readable description of the failure.
    pub fn message(&self) -> (r: String)
        ensures
            r@ == error_text(*self),
    {
        match self {
            Error::AuthenticationFailed => "the request was unauthorised".to_owned(),
            Error::StoreUnavailable => "no store connection is available".to_owned(),
            Error::QueryFailed => "the store could not execute the statement".to_owned(),
            Error::UniquenessViolation => "the identifier was registered concurrently".to_owned(),
            Error::SerializationFailed => "the event could not be encoded".to_owned(),
        }
    }
}

/// The description that [`Error::message`] gives for each failure.
pub open spec fn error_text(e: Error) -> Seq<char> {
    match e {
        Error::AuthenticationFailed => "the request was unauthorised"@,
        Error::StoreUnavailable => "no store connection is available"@,
        Error::QueryFailed => "the store could not execute the statement"@,
        Error::UniquenessViolation => "the identifier was registered concurrently"@,
        Error::SerializationFailed => "the event could not be encoded"@,
    }
}

} // verus!
