//! The invitation service: owners invite people by short codes, invited
//! people claim the codes, and owners refresh unused ones.
pub mod error;
pub mod handlers;
pub mod models;
