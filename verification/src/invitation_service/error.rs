//! The errors of the invitation service and the responses they become.
use vstd::prelude::*;
use crate::shared::error::StoreError;
use crate::text::{concat, concat4, owned};

verus! {

/// An error of an invitation service request.
#[derive(Debug)]
pub enum AppError {
    NotFound(String),
    Unauthorized(String),
    BadRequest(String),
    InvitationExpired,
    InternalServerError(String),
    Forbidden(String),
    /// A body that could not be read or written; holds the reader's message.
    SerializationError(String),
    BadGateway(String),
}

/// The HTTP status of an error.
pub open spec fn status_of(e: AppError) -> u16 {
    match e {
        AppError::NotFound(_) => 404,
        AppError::Unauthorized(_) => 401,
        AppError::BadRequest(_) => 400,
        AppError::InvitationExpired => 410,
        AppError::InternalServerError(_) => 500,
        AppError::Forbidden(_) => 403,
        AppError::SerializationError(_) => 400,
        AppError::BadGateway(_) => 502,
    }
}

/// The `error` field of an error's response.
pub open spec fn message_of(e: AppError) -> Seq<char> {
    match e {
        AppError::NotFound(m) => m@,
        AppError::Unauthorized(m) => m@,
        AppError::BadRequest(m) => m@,
        AppError::InvitationExpired => "Invitation has expired"@,
        AppError::InternalServerError(m) => m@,
        AppError::Forbidden(m) => m@,
        AppError::SerializationError(m) => m@,
        AppError::BadGateway(m) => m@,
    }
}

/// The message an error displays.
pub open spec fn display_of(e: AppError) -> Seq<char> {
    match e {
        AppError::NotFound(m) => "Not found: "@ + m@,
        AppError::Unauthorized(m) => "Unauthorized: "@ + m@,
        AppError::BadRequest(m) => "Bad request: "@ + m@,
        AppError::InvitationExpired => "Invitation expired"@,
        AppError::InternalServerError(m) => "Internal server error: "@ + m@,
        AppError::Forbidden(m) => "Forbidden: "@ + m@,
        AppError::SerializationError(m) => "Serialization error: "@ + m@,
        AppError::BadGateway(m) => "Bad gateway: "@ + m@,
    }
}

/// The service error a store error becomes.
pub open spec fn from_store_spec(e: StoreError, a: AppError) -> bool {
    match e {
        StoreError::NotFound(m) => a == AppError::NotFound(m),
        StoreError::ValidationError(m) => a == AppError::BadRequest(m),
        StoreError::InternalError(m) => a == AppError::InternalServerError(m),
        StoreError::InvitationExpired => a == AppError::InvitationExpired,
        StoreError::AuthError(m) => a == AppError::Unauthorized(m),
        StoreError::VersionConflict(m) => a matches AppError::BadRequest(s) && s@
            == "Concurrent modification detected: "@ + m@,
    }
}

/// The HTTP status a store error is answered with.
pub open spec fn store_error_status(e: StoreError) -> u16 {
    match e {
        StoreError::NotFound(_) => 404,
        StoreError::ValidationError(_) => 400,
        StoreError::InternalError(_) => 500,
        StoreError::InvitationExpired => 410,
        StoreError::AuthError(_) => 401,
        StoreError::VersionConflict(_) => 400,
    }
}

/// A store error is answered with the status of its kind: a missing record
/// with 404, invalid input or a stale update with 400, an expired
/// invitation with 410, failed authentication with 401, and anything else
/// with 500.
pub proof fn lemma_store_error_status(e: StoreError, a: AppError)
    requires
        from_store_spec(e, a),
    ensures
        status_of(a) == store_error_status(e),
{
}

impl AppError {
    pub fn not_found(msg: String) -> (r: Self)
        ensures
            r == AppError::NotFound(msg),
    {
        AppError::NotFound(msg)
    }

    pub fn unauthorized(msg: String) -> (r: Self)
        ensures
            r == AppError::Unauthorized(msg),
    {
        AppError::Unauthorized(msg)
    }

    pub fn bad_request(msg: String) -> (r: Self)
        ensures
            r == AppError::BadRequest(msg),
    {
        AppError::BadRequest(msg)
    }

    pub fn invitation_expired() -> (r: Self)
        ensures
            r == AppError::InvitationExpired,
    {
        AppError::InvitationExpired
    }

    pub fn internal_server_error(msg: String) -> (r: Self)
        ensures
            r == AppError::InternalServerError(msg),
    {
        AppError::InternalServerError(msg)
    }

    pub fn forbidden(msg: String) -> (r: Self)
        ensures
            r == AppError::Forbidden(msg),
    {
        AppError::Forbidden(msg)
    }

    pub fn bad_gateway(msg: String) -> (r: Self)
        ensures
            r == AppError::BadGateway(msg),
    {
        AppError::BadGateway(msg)
    }

    /// The service error for a store error.
    pub fn from(err: StoreError) -> (r: Self)
        ensures
            from_store_spec(err, r),
    {
        match err {
            StoreError::NotFound(msg) => AppError::NotFound(msg),
            StoreError::ValidationError(msg) => AppError::BadRequest(msg),
            StoreError::InternalError(msg) => AppError::InternalServerError(msg),
            StoreError::InvitationExpired => AppError::InvitationExpired,
            StoreError::AuthError(msg) => AppError::Unauthorized(msg),
            StoreError::VersionConflict(msg) => AppError::BadRequest(
                concat("Concurrent modification detected: ", msg.as_str()),
            ),
        }
    }

    /// The HTTP status of the error response.
    pub fn status_code(&self) -> (r: u16)
        ensures
            r == status_of(*self),
    {
        match self {
            AppError::NotFound(_) => 404,
            AppError::Unauthorized(_) => 401,
            AppError::BadRequest(_) => 400,
            AppError::InvitationExpired => 410,
            AppError::InternalServerError(_) => 500,
            AppError::Forbidden(_) => 403,
            AppError::SerializationError(_) => 400,
            AppError::BadGateway(_) => 502,
        }
    }

    /// The `error` field of the error response.
    pub fn error_message(&self) -> (r: String)
        ensures
            r@ == message_of(*self),
    {
        match self {
            AppError::NotFound(m) => m.clone(),
            AppError::Unauthorized(m) => m.clone(),
            AppError::BadRequest(m) => m.clone(),
            AppError::InvitationExpired => owned("Invitation has expired"),
            AppError::InternalServerError(m) => m.clone(),
            AppError::Forbidden(m) => m.clone(),
            AppError::SerializationError(m) => m.clone(),
            AppError::BadGateway(m) => m.clone(),
        }
    }

    /// The message the error displays.
    pub fn to_string(&self) -> (r: String)
        ensures
            r@ == display_of(*self),
    {
        match self {
            AppError::NotFound(m) => concat("Not found: ", m.as_str()),
            AppError::Unauthorized(m) => concat("Unauthorized: ", m.as_str()),
            AppError::BadRequest(m) => concat("Bad request: ", m.as_str()),
            AppError::InvitationExpired => owned("Invitation expired"),
            AppError::InternalServerError(m) => concat("Internal server error: ", m.as_str()),
            AppError::Forbidden(m) => concat("Forbidden: ", m.as_str()),
            AppError::SerializationError(m) => concat("Serialization error: ", m.as_str()),
            AppError::BadGateway(m) => concat("Bad gateway: ", m.as_str()),
        }
    }
}

/// The internal error for a failed storage or messaging operation; `err` is
/// the displayed message of the underlying error.
pub fn map_dynamo_error(operation: &str, err: &str) -> (r: AppError)
    ensures
        r matches AppError::InternalServerError(m) && m@ == "DynamoDB "@ + operation@
            + " error: "@ + err@,
{
    AppError::InternalServerError(concat4("DynamoDB ", operation, " error: ", err))
}

} // verus!
