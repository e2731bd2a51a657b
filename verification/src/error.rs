//! The failure taxonomy shared by every subsystem.

use vstd::prelude::*;

verus! {

/// Every failure a core operation can report.
#[derive(Clone, Copy, Debug, PartialEq, Eq, Structural)]
pub enum Error {
    /// Derivation found no valid candidate within the round ceiling.
    ValidationFailure,
    /// Bad password, unknown user, or bad or expired token; the kinds are
    /// deliberately never distinguished to the caller.
    AuthFailure,
    /// Registration against an existing username.
    ConflictFailure,
    /// Network or parse failure during a sync exchange.
    TransportFailure,
    /// Storage read, write or parse failure.
    PersistenceFailure,
    /// The slow credential hash could not be computed.
    HashFailure,
}

/// The HTTP status an error maps to at the server boundary.
///
/// Authentication and registration conflicts surface as client errors;
/// everything else collapses to a generic server error so that internal
/// detail is withheld.
pub open spec fn spec_status(e: Error) -> u16 {
    match e {
        Error::AuthFailure => 401,
        Error::ConflictFailure => 409,
        _ => 500,
    }
}

/// An error as reported over HTTP.
pub struct HttpError(pub Error);

impl HttpError {
    /// The status code sent for this error.
    pub fn status(&self) -> (r: u16)
        ensures
            r == spec_status(self.0),
    {
        match self.0 {
            Error::AuthFailure => 401,
            Error::ConflictFailure => 409,
            _ => 500,
        }
    }
}

impl core::convert::From<Error> for HttpError {
    fn from(e: Error) -> (r: HttpError) {
        HttpError(e)
    }
}

impl vstd::std_specs::convert::FromSpecImpl<Error> for HttpError {
    open spec fn obeys_from_spec() -> bool {
        true
    }

    open spec fn from_spec(e: Error) -> HttpError {
        HttpError(e)
    }
}

} // verus!
