//! The errors of the single-service API.
use vstd::prelude::*;

verus! {

/// An error of a request.
#[derive(Debug)]
pub enum AppError {
    Unauthorized(String),
    NotFound(String),
    BadRequest(String),
    InternalServerError(String),
}

/// The HTTP status of an error.
pub open spec fn status_of(e: AppError) -> u16 {
    match e {
        AppError::Unauthorized(_) => 401,
        AppError::NotFound(_) => 404,
        AppError::BadRequest(_) => 400,
        AppError::InternalServerError(_) => 500,
    }
}

impl AppError {
    /// The HTTP status of the error response.
    pub fn status_code(&self) -> (r: u16)
        ensures
            r == status_of(*self),
    {
        match self {
            AppError::Unauthorized(_) => 401,
            AppError::NotFound(_) => 404,
            AppError::BadRequest(_) => 400,
            AppError::InternalServerError(_) => 500,
        }
    }

    /// The `error` field of the error response.
    pub fn error_message(&self) -> (r: String)
        ensures
            r == match *self {
                AppError::Unauthorized(m) => m,
                AppError::NotFound(m) => m,
                AppError::BadRequest(m) => m,
                AppError::InternalServerError(m) => m,
            },
    {
        match self {
            AppError::Unauthorized(m) => m.clone(),
            AppError::NotFound(m) => m.clone(),
            AppError::BadRequest(m) => m.clone(),
            AppError::InternalServerError(m) => m.clone(),
        }
    }
}

} // verus!
