//! The box service: owners manage their boxes, documents and guardians;
//! guardians view boxes, request and answer unlocks, and answer invitations.
pub mod error;
pub mod handlers;
pub mod models;
