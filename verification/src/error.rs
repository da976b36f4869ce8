//! The error taxonomy shared by the resource layer, and the external
//! signal each kind maps to.

use crate::b64uuid::{hyphenated_of, uuid_to_string};
use vstd::prelude::*;
use vstd::string::StringExecFns;

verus! {

/// Errors raised by the resource-name codec and the generic entity
/// operations.
#[derive(Debug, PartialEq)]
pub enum Error {
    /// A resource name was malformed or did not match its template.
    NameError,
    /// A field value lay outside the accepted domain for its type; carries
    /// the offending value and the type's name.
    ValueError(String, &'static str),
    /// A referenced row is absent or not owned by the tenant; carries the
    /// resource type's name and the identifier.
    NoSuchResourceError(&'static str, u128),
    /// Any other storage failure; the detail is for the server-side log
    /// only and is never surfaced to the caller.
    DatabaseError(String),
}

/// The class of signal an error maps to at the boundary of the system.
#[derive(Debug, Clone, Copy, PartialEq, Eq, Structural)]
pub enum ErrorSignal {
    InvalidArgument,
    NotFound,
    FailedPrecondition,
    Internal,
}

impl Error {
    /// The external signal for each error kind: malformed input is an
    /// invalid argument, an absent row is not found, and storage failures
    /// surface only as an opaque internal error.
    pub fn signal(&self) -> (r: ErrorSignal)
        ensures
            r == match self {
                Error::NameError => ErrorSignal::InvalidArgument,
                Error::ValueError(_, _) => ErrorSignal::InvalidArgument,
                Error::NoSuchResourceError(_, _) => ErrorSignal::NotFound,
                Error::DatabaseError(_) => ErrorSignal::Internal,
            },
    {
        match self {
            Error::NameError => ErrorSignal::InvalidArgument,
            Error::ValueError(_, _) => ErrorSignal::InvalidArgument,
            Error::NoSuchResourceError(_, _) => ErrorSignal::NotFound,
            Error::DatabaseError(_) => ErrorSignal::Internal,
        }
    }

    /// The text sent with the signal. A storage failure always reads
    /// `internal error`: its detail stays out of the message, whatever it
    /// holds.
    pub fn message(&self) -> (r: String)
        ensures
            r@ == match self {
                Error::NameError => "invalid name"@,
                Error::ValueError(v, t) => "invalid value '"@ + v@ + "' for type "@ + t@,
                Error::NoSuchResourceError(t, id) => "no such resource "@ + t@ + "/"@
                    + hyphenated_of(*id),
                Error::DatabaseError(_) => "internal error"@,
            },
    {
        match self {
            Error::NameError => String::from_str("invalid name"),
            Error::ValueError(v, t) => {
                let mut m = String::from_str("invalid value '");
                m.append(v.as_str());
                m.append("' for type ");
                m.append(t);
                m
            },
            Error::NoSuchResourceError(t, id) => {
                let mut m = String::from_str("no such resource ");
                m.append(t);
                m.append("/");
                m.append(uuid_to_string(*id).as_str());
                m
            },
            Error::DatabaseError(_) => String::from_str("internal error"),
        }
    }
}

} // verus!
