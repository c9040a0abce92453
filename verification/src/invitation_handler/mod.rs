//! The box invitation handler: when an invitation is accepted, its guardian
//! entry in the box becomes the user who accepted it.
pub mod handlers;
