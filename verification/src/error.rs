//! Error taxonomy of the core and the uniform response envelope.
use vstd::prelude::*;

verus! {

pub const HTTP_STATUS_OK: i32 = 0;

pub const HTTP_STATUS_ERROR_SCOPE: i32 = 4000001;

pub const HTTP_STATUS_ERROR_UNKNOWN: i32 = 5000001;

/// A failure of the core, classed by what went wrong:
/// a malformed request, a missing entity, an engine (tokenizer or forward
/// pass) failure, or a store failure.
#[derive(Debug)]
pub enum CoreError {
    BadRequest(String),
    NotFound(String),
    Engine(String),
    Store(String),
}

impl CoreError {
    /// The message carried by the error, whatever its class.
    pub fn message(&self) -> (r: &String)
        ensures
            *self matches CoreError::BadRequest(m) ==> r == m,
            *self matches CoreError::NotFound(m) ==> r == m,
            *self matches CoreError::Engine(m) ==> r == m,
            *self matches CoreError::Store(m) ==> r == m,
    {
        match self {
            CoreError::BadRequest(m) => m,
            CoreError::NotFound(m) => m,
            CoreError::Engine(m) => m,
            CoreError::Store(m) => m,
        }
    }
}

/// The error shape handed to the transport layer.
#[derive(Debug)]
pub enum BackendError {
    CommonException { status: i32, msg: String },
    ScopeException(String),
    UnknownException(String),
}

impl BackendError {
    /// The status code and message of the response envelope. Exceptions other
    /// than `CommonException` surface a generic message; their detail stays
    /// internal.
    pub fn status_and_msg(&self) -> (r: (i32, String))
        ensures
            *self matches BackendError::CommonException { status, msg } ==> r.0 == status && r.1@
                == msg@,
            *self is ScopeException ==> r.0 == HTTP_STATUS_ERROR_SCOPE && r.1@
                == "Scope Exception"@,
            *self is UnknownException ==> r.0 == HTTP_STATUS_ERROR_UNKNOWN && r.1@
                == "Unknown Exception"@,
    {
        match self {
            BackendError::CommonException { status, msg } => (*status, msg.clone()),
            BackendError::ScopeException(_) => (
                HTTP_STATUS_ERROR_SCOPE,
                String::from_str("Scope Exception"),
            ),
            BackendError::UnknownException(_) => (
                HTTP_STATUS_ERROR_UNKNOWN,
                String::from_str("Unknown Exception"),
            ),
        }
    }
}

/// Every core failure is surfaced through the generic envelope, as the
/// service reports internal errors without leaking their detail.
pub fn to_backend_error(e: CoreError) -> (r: BackendError)
    ensures
        e matches CoreError::BadRequest(m) ==> r matches BackendError::UnknownException(n) && n@
            == m@,
        e matches CoreError::NotFound(m) ==> r matches BackendError::UnknownException(n) && n@
            == m@,
        e matches CoreError::Engine(m) ==> r matches BackendError::UnknownException(n) && n@ == m@,
        e matches CoreError::Store(m) ==> r matches BackendError::UnknownException(n) && n@ == m@,
{
    match e {
        CoreError::BadRequest(m) => BackendError::UnknownException(m),
        CoreError::NotFound(m) => BackendError::UnknownException(m),
        CoreError::Engine(m) => BackendError::UnknownException(m),
        CoreError::Store(m) => BackendError::UnknownException(m),
    }
}

} // verus!
