//! The error of the store interfaces, which each service maps to its own.
use vstd::prelude::*;
use crate::text::{concat, concat4, owned};

verus! {

/// An error of a store operation.
#[derive(Debug)]
pub enum StoreError {
    NotFound(String),
    InternalError(String),
    ValidationError(String),
    InvitationExpired,
    AuthError(String),
    /// An update was made from a stale version of the record.
    VersionConflict(String),
}

/// The message a store error displays.
pub open spec fn store_error_message(e: StoreError) -> Seq<char> {
    match e {
        StoreError::NotFound(m) => "Not found: "@ + m@,
        StoreError::InternalError(m) => "Internal error: "@ + m@,
        StoreError::ValidationError(m) => "Validation error: "@ + m@,
        StoreError::InvitationExpired => "Invitation expired"@,
        StoreError::AuthError(m) => "Authentication error: "@ + m@,
        StoreError::VersionConflict(m) => "Version conflict: "@ + m@,
    }
}

impl StoreError {
    /// The message of the error, as it is displayed.
    pub fn to_string(&self) -> (r: String)
        ensures
            r@ == store_error_message(*self),
    {
        match self {
            StoreError::NotFound(m) => concat("Not found: ", m.as_str()),
            StoreError::InternalError(m) => concat("Internal error: ", m.as_str()),
            StoreError::ValidationError(m) => concat("Validation error: ", m.as_str()),
            StoreError::InvitationExpired => owned("Invitation expired"),
            StoreError::AuthError(m) => concat("Authentication error: ", m.as_str()),
            StoreError::VersionConflict(m) => concat("Version conflict: ", m.as_str()),
        }
    }
}

/// The internal error for a failed database operation; `err` is the message
/// of the underlying error.
pub fn map_dynamo_error(operation: &str, err: &str) -> (r: StoreError)
    ensures
        r matches StoreError::InternalError(m) && m@ == "DynamoDB "@ + operation@ + " error: "@
            + err@,
{
    StoreError::InternalError(concat4("DynamoDB ", operation, " error: ", err))
}

} // verus!
