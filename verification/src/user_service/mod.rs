//! The user service's errors and the HTTP statuses they map to.
pub mod error;
