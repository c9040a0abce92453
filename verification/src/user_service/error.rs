//! The errors of the user service.
use vstd::prelude::*;
use crate::text::{concat, owned};

verus! {

/// An error of a user service request.
#[derive(Debug)]
pub enum ServiceError {
    UserNotFound(String),
    Unauthorized,
    DatabaseError(String),
    InvalidInput(String),
    InternalServerError(String),
}

/// The HTTP status of an error.
pub open spec fn status_of(e: ServiceError) -> u16 {
    match e {
        ServiceError::UserNotFound(_) => 404,
        ServiceError::Unauthorized => 401,
        ServiceError::DatabaseError(_) => 500,
        ServiceError::InvalidInput(_) => 400,
        ServiceError::InternalServerError(_) => 500,
    }
}

/// The message an error displays.
pub open spec fn display_of(e: ServiceError) -> Seq<char> {
    match e {
        ServiceError::UserNotFound(m) => "User not found: "@ + m@,
        ServiceError::Unauthorized => "Unauthorized access"@,
        ServiceError::DatabaseError(m) => "Database error: "@ + m@,
        ServiceError::InvalidInput(m) => "Invalid input: "@ + m@,
        ServiceError::InternalServerError(m) => "Internal server error: "@ + m@,
    }
}

impl ServiceError {
    /// The HTTP status of the error.
    pub fn status_code(&self) -> (r: u16)
        ensures
            r == status_of(*self),
    {
        match self {
            ServiceError::UserNotFound(_) => 404,
            ServiceError::Unauthorized => 401,
            ServiceError::DatabaseError(_) => 500,
            ServiceError::InvalidInput(_) => 400,
            ServiceError::InternalServerError(_) => 500,
        }
    }

    /// The message the error displays.
    pub fn to_string(&self) -> (r: String)
        ensures
            r@ == display_of(*self),
    {
        match self {
            ServiceError::UserNotFound(m) => concat("User not found: ", m.as_str()),
            ServiceError::Unauthorized => owned("Unauthorized access"),
            ServiceError::DatabaseError(m) => concat("Database error: ", m.as_str()),
            ServiceError::InvalidInput(m) => concat("Invalid input: ", m.as_str()),
            ServiceError::InternalServerError(m) => concat("Internal server error: ", m.as_str()),
        }
    }
}

} // verus!
