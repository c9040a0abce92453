//! The first, single-service lockbox API: boxes with a separate list of
//! lead guardians, an in-memory store, and the same owner and guardian
//! operations.
pub mod error;
pub mod guardian_handlers;
pub mod box_handlers;
pub mod models;
pub mod store;
