use vstd::prelude::*;
use vstd::string::StringExecFns;
use crate::errors::{ApiError, DBError};

verus! {

/// The caller-visible status class an error maps to, free of any particular
/// wire format.
#[derive(Debug, Clone, Copy, PartialEq, Eq, Structural)]
pub enum StatusClass {
    BadRequest,
    Unauthorized,
    Forbidden,
    NotFound,
    InternalServerError,
    ServiceUnavailable,
}

/// What the boundary sends back for an error: a status class and the message
/// shown to the caller.
#[derive(Debug)]
pub struct ResponseParts {
    pub status: StatusClass,
    pub message: String,
}

/// The generic message behind which internal failure detail is hidden.
pub open spec fn masked_message() -> Seq<char> {
    "Service unavailable"@
}

impl DBError {
    /// The status class and message for a raw storage error. A storage error
    /// reaching the caller boundary is internal by definition — its detail
    /// names tables, constraints and connections, and the kinds with a client
    /// meaning are reinterpreted by the domain layer into `ExistedResource`
    /// or `AlreadyJoined` before they get here — so every kind is masked
    /// behind the fixed generic message, whatever its detail holds; the
    /// caller records the original error for operators before mapping it.
    pub fn into_response(self) -> (r: ResponseParts)
        ensures
            r.status is ServiceUnavailable,
            r.message@ == masked_message(),
    {
        match self {
            DBError::QueryError(_) => ResponseParts {
                status: StatusClass::ServiceUnavailable,
                message: "Service unavailable".to_owned(),
            },
            DBError::ConstraintViolation(_) => ResponseParts {
                status: StatusClass::ServiceUnavailable,
                message: "Service unavailable".to_owned(),
            },
            DBError::ConnectionError(_) => ResponseParts {
                status: StatusClass::ServiceUnavailable,
                message: "Service unavailable".to_owned(),
            },
            DBError::TransactionError(_) => ResponseParts {
                status: StatusClass::ServiceUnavailable,
                message: "Service unavailable".to_owned(),
            },
        }
    }
}

impl ApiError {
    /// The status class and message for an operation-level error. The kinds
    /// that describe a client-facing condition show their own message
    /// verbatim; `DatabaseError` and `Unknown` are masked behind a fixed
    /// generic message, so internal failure detail never crosses this
    /// boundary (the caller records the original error for operators before
    /// mapping it).
    pub fn into_response(self) -> (r: ResponseParts)
        ensures
            (self matches ApiError::NotFound(d) ==> r.status is NotFound && r.message@
                == "The resource is not found: "@ + d@),
            (self is AlreadyJoined ==> r.status is BadRequest && r.message@
                == "The user already joined the group"@),
            (self matches ApiError::ExistedResource(d) ==> r.status is BadRequest && r.message
                == d),
            (self is Forbidden ==> r.status is Forbidden && r.message@
                == "The current user doesn't have permission to access the resource"@),
            (self is Unauthorized ==> r.status is Unauthorized && r.message@
                == "The current user doesn't have right to access the resource"@),
            (self matches ApiError::MissingField(d) ==> r.status is BadRequest && r.message@
                == "The request is missing "@ + d@),
            (self is DatabaseError || self is Unknown) ==> r.status is ServiceUnavailable
                && r.message@ == masked_message(),
    {
        match self {
            ApiError::NotFound(d) => ResponseParts {
                status: StatusClass::NotFound,
                message: String::from_str("The resource is not found: ").concat(d.as_str()),
            },
            ApiError::AlreadyJoined => ResponseParts {
                status: StatusClass::BadRequest,
                message: "The user already joined the group".to_owned(),
            },
            ApiError::ExistedResource(d) => ResponseParts {
                status: StatusClass::BadRequest,
                message: d,
            },
            ApiError::Forbidden => ResponseParts {
                status: StatusClass::Forbidden,
                message: "The current user doesn't have permission to access the resource".to_owned(),
            },
            ApiError::Unauthorized => ResponseParts {
                status: StatusClass::Unauthorized,
                message: "The current user doesn't have right to access the resource".to_owned(),
            },
            ApiError::MissingField(d) => ResponseParts {
                status: StatusClass::BadRequest,
                message: String::from_str("The request is missing ").concat(d.as_str()),
            },
            ApiError::DatabaseError(_) => ResponseParts {
                status: StatusClass::ServiceUnavailable,
                message: "Service unavailable".to_owned(),
            },
            ApiError::Unknown => ResponseParts {
                status: StatusClass::ServiceUnavailable,
                message: "Service unavailable".to_owned(),
            },
        }
    }
}

} // verus!
