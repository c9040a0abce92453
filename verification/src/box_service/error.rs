//! The errors of the box service and the responses they become.
use vstd::prelude::*;
use crate::shared::error::StoreError;
use crate::text::{concat, owned};

verus! {

/// An error of a box service request.
#[derive(Debug)]
pub enum AppError {
    Unauthorized(String),
    NotFound(String),
    BadRequest(String),
    InternalServerError(String),
    /// A request body that could not be read; holds the reader's message.
    SerializationError(String),
    InvitationExpired(String),
}

/// The HTTP status of an error.
pub open spec fn status_of(e: AppError) -> u16 {
    match e {
        AppError::Unauthorized(_) => 401,
        AppError::NotFound(_) => 404,
        AppError::BadRequest(_) => 400,
        AppError::InternalServerError(_) => 500,
        AppError::SerializationError(_) => 400,
        AppError::InvitationExpired(_) => 422,
    }
}

/// The message an error carries.
pub open spec fn message_of(e: AppError) -> String {
    match e {
        AppError::Unauthorized(m) => m,
        AppError::NotFound(m) => m,
        AppError::BadRequest(m) => m,
        AppError::InternalServerError(m) => m,
        AppError::SerializationError(m) => m,
        AppError::InvitationExpired(m) => m,
    }
}

/// The message an error displays.
pub open spec fn display_of(e: AppError) -> Seq<char> {
    match e {
        AppError::Unauthorized(m) => "Unauthorized: "@ + m@,
        AppError::NotFound(m) => "Not found: "@ + m@,
        AppError::BadRequest(m) => "Bad request: "@ + m@,
        AppError::InternalServerError(m) => "Internal server error: "@ + m@,
        AppError::SerializationError(m) => "Serialization error: "@ + m@,
        AppError::InvitationExpired(m) => "Invitation expired: "@ + m@,
    }
}

/// The service error a store error becomes.
pub open spec fn from_store_spec(e: StoreError, a: AppError) -> bool {
    match e {
        StoreError::NotFound(m) => a == AppError::NotFound(m),
        StoreError::ValidationError(m) => a == AppError::BadRequest(m),
        StoreError::InternalError(m) => a == AppError::InternalServerError(m),
        StoreError::InvitationExpired => a matches AppError::InvitationExpired(m) && m@
            == "Invitation has expired"@,
        StoreError::AuthError(m) => a == AppError::Unauthorized(m),
        StoreError::VersionConflict(m) => a matches AppError::BadRequest(s) && s@
            == "Concurrent modification detected, please retry: "@ + m@,
    }
}

/// The HTTP status a store error is answered with.
pub open spec fn store_error_status(e: StoreError) -> u16 {
    match e {
        StoreError::NotFound(_) => 404,
        StoreError::ValidationError(_) => 400,
        StoreError::InternalError(_) => 500,
        StoreError::InvitationExpired => 422,
        StoreError::AuthError(_) => 401,
        StoreError::VersionConflict(_) => 400,
    }
}

/// A store error is answered with the status of its kind: a missing record
/// with 404, invalid input or a stale update with 400, an expired
/// invitation with 422, failed authentication with 401, and anything else
/// with 500.
pub proof fn lemma_store_error_status(e: StoreError, a: AppError)
    requires
        from_store_spec(e, a),
    ensures
        status_of(a) == store_error_status(e),
{
}

impl AppError {
    pub fn unauthorized(msg: String) -> (r: Self)
        ensures
            r == AppError::Unauthorized(msg),
    {
        AppError::Unauthorized(msg)
    }

    pub fn not_found(msg: String) -> (r: Self)
        ensures
            r == AppError::NotFound(msg),
    {
        AppError::NotFound(msg)
    }

    pub fn bad_request(msg: String) -> (r: Self)
        ensures
            r == AppError::BadRequest(msg),
    {
        AppError::BadRequest(msg)
    }

    pub fn internal_server_error(msg: String) -> (r: Self)
        ensures
            r == AppError::InternalServerError(msg),
    {
        AppError::InternalServerError(msg)
    }

    /// An internal error with the displayed message of another error.
    pub fn internal_error(error: &str) -> (r: Self)
        ensures
            r matches AppError::InternalServerError(m) && m@ == error@,
    {
        AppError::InternalServerError(owned(error))
    }

    pub fn not_found_error(message: String) -> (r: Self)
        ensures
            r == AppError::NotFound(message),
    {
        AppError::NotFound(message)
    }

    /// The service error for a store error.
    pub fn from(err: StoreError) -> (r: Self)
        ensures
            from_store_spec(err, r),
    {
        match err {
            StoreError::NotFound(msg) => AppError::NotFound(msg),
            StoreError::ValidationError(msg) => AppError::BadRequest(msg),
            StoreError::InternalError(msg) => AppError::InternalServerError(msg),
            StoreError::InvitationExpired => AppError::InvitationExpired(
                owned("Invitation has expired"),
            ),
            StoreError::AuthError(msg) => AppError::Unauthorized(msg),
            StoreError::VersionConflict(msg) => AppError::BadRequest(
                concat("Concurrent modification detected, please retry: ", msg.as_str()),
            ),
        }
    }

    /// The HTTP status of the error response.
    pub fn status_code(&self) -> (r: u16)
        ensures
            r == status_of(*self),
    {
        match self {
            AppError::Unauthorized(_) => 401,
            AppError::NotFound(_) => 404,
            AppError::BadRequest(_) => 400,
            AppError::InternalServerError(_) => 500,
            AppError::SerializationError(_) => 400,
            AppError::InvitationExpired(_) => 422,
        }
    }

    /// The `error` field of the error response.
    pub fn error_message(&self) -> (r: String)
        ensures
            r == message_of(*self),
    {
        match self {
            AppError::Unauthorized(m) => m.clone(),
            AppError::NotFound(m) => m.clone(),
            AppError::BadRequest(m) => m.clone(),
            AppError::InternalServerError(m) => m.clone(),
            AppError::SerializationError(m) => m.clone(),
            AppError::InvitationExpired(m) => m.clone(),
        }
    }

    /// The message the error displays.
    pub fn to_string(&self) -> (r: String)
        ensures
            r@ == display_of(*self),
    {
        match self {
            AppError::Unauthorized(m) => concat("Unauthorized: ", m.as_str()),
            AppError::NotFound(m) => concat("Not found: ", m.as_str()),
            AppError::BadRequest(m) => concat("Bad request: ", m.as_str()),
            AppError::InternalServerError(m) => concat("Internal server error: ", m.as_str()),
            AppError::SerializationError(m) => concat("Serialization error: ", m.as_str()),
            AppError::InvitationExpired(m) => concat("Invitation expired: ", m.as_str()),
        }
    }
}

} // verus!
