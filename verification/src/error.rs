//! The failure taxonomy every operation raises through: server rejections
//! with their HTTP status, undecodable responses, bad locators, and design
//! resources that could not be materialized.

use crate::json::{dec_digits, u64_to_string};
use vstd::prelude::*;
use vstd::string::StringExecFns;

verus! {

/// The status a server answers with when a resource is absent.
pub const STATUS_NOT_FOUND: u16 = 404;

/// The status a server answers with when a write loses a revision race.
pub const STATUS_CONFLICT: u16 = 409;

/// Details of a rejected operation. The status is the HTTP status code's
/// numeric value.
#[derive(Debug, Clone, PartialEq, Eq)]
pub struct ErrorDetails {
    /// A bulk outcome may name the document the failure belongs to.
    pub id: Option<String>,
    /// HTTP status code.
    pub status: u16,
    /// Detailed error message.
    pub message: String,
}

/// A failure described by a message alone.
#[derive(Debug, Clone, PartialEq, Eq)]
pub struct ErrorMessage {
    /// Detailed error message.
    pub message: String,
}

/// The closed failure taxonomy of this layer.
#[derive(Debug, Clone, PartialEq, Eq)]
pub enum CouchError {
    /// The server rejected a request, with an HTTP status.
    OperationFailed(ErrorDetails),
    /// A response body could not be decoded into the expected shape.
    InvalidJson(ErrorMessage),
    /// A caller-supplied location is not a valid resource locator.
    MalformedUrl(ErrorMessage),
    /// A view or index resource could not be materialized.
    CreateDesignFailed(ErrorMessage),
}

pub type CouchResult<T> = Result<T, CouchError>;

impl CouchError {
    /// A server rejection without a per-document identity.
    pub fn new(message: String, status: u16) -> (r: CouchError)
        ensures
            r == CouchError::OperationFailed(
                ErrorDetails { id: None, status, message },
            ),
    {
        CouchError::OperationFailed(ErrorDetails { id: None, status, message })
    }

    /// A server rejection that names the document it belongs to.
    pub fn new_with_id(id: Option<String>, message: String, status: u16) -> (r: CouchError)
        ensures
            r == CouchError::OperationFailed(ErrorDetails { id, status, message }),
    {
        CouchError::OperationFailed(ErrorDetails { id, status, message })
    }

    /// The status of a server rejection; other failures carry none.
    pub open spec fn status_spec(&self) -> Option<u16> {
        match self {
            CouchError::OperationFailed(details) => Some(details.status),
            _ => None,
        }
    }

    /// Whether this failure is a server rejection for an absent resource.
    pub open spec fn is_not_found_spec(&self) -> bool {
        self.status_spec() == Some(STATUS_NOT_FOUND)
    }

    pub fn status(&self) -> (r: Option<u16>)
        ensures
            r == self.status_spec(),
    {
        match self {
            CouchError::OperationFailed(details) => Some(details.status),
            _ => None,
        }
    }

    pub fn is_not_found(&self) -> (r: bool)
        ensures
            r == self.is_not_found_spec(),
    {
        self.status() == Some(STATUS_NOT_FOUND)
    }
}

/// The text a failure reads as: a rejection shows its document, status
/// and message; other failures their message alone.
pub open spec fn error_text(e: CouchError) -> Seq<char> {
    match e {
        CouchError::OperationFailed(details) => (match details.id {
            Some(id) => id@ + " -> "@,
            None => Seq::empty(),
        }) + dec_digits(details.status as nat) + ": "@ + details.message@,
        CouchError::InvalidJson(m) => m.message@,
        CouchError::MalformedUrl(m) => m.message@,
        CouchError::CreateDesignFailed(m) => m.message@,
    }
}

impl CouchError {
    /// Renders this failure.
    pub fn to_string(&self) -> (r: String)
        ensures
            r@ == error_text(*self),
    {
        match self {
            CouchError::OperationFailed(details) => {
                let mut out = match &details.id {
                    Some(id) => {
                        let mut s = id.clone();
                        s.append(" -> ");
                        s
                    },
                    None => String::new(),
                };
                let digits = u64_to_string(details.status as u64);
                out.append(digits.as_str());
                out.append(": ");
                out.append(details.message.as_str());
                out
            },
            CouchError::InvalidJson(m) => m.message.clone(),
            CouchError::MalformedUrl(m) => m.message.clone(),
            CouchError::CreateDesignFailed(m) => m.message.clone(),
        }
    }
}

/// Optional-style handling of not-found failures.
pub trait CouchResultExt<T>: Sized {
    /// The operation outcome this value stands for.
    spec fn result_spec(self) -> CouchResult<T>;

    /// Turns an `Ok` into an `Ok(Some)` and a not-found failure into an
    /// `Ok(None)`; every other failure propagates unchanged.
    fn into_option(self) -> (r: CouchResult<Option<T>>)
        ensures
            match self.result_spec() {
                Ok(v) => r == Ok::<Option<T>, CouchError>(Some(v)),
                Err(e) => if e.is_not_found_spec() {
                    r == Ok::<Option<T>, CouchError>(None)
                } else {
                    r == Err::<Option<T>, CouchError>(e)
                },
            },
    ;
}

impl<T> CouchResultExt<T> for CouchResult<T> {
    open spec fn result_spec(self) -> CouchResult<T> {
        self
    }

    fn into_option(self) -> (r: CouchResult<Option<T>>) {
        match self {
            Ok(v) => Ok(Some(v)),
            Err(err) => {
                if err.is_not_found() {
                    Ok(None)
                } else {
                    Err(err)
                }
            },
        }
    }
}

} // verus!
