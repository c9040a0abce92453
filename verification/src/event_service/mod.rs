//! The invitation event service: when an invited person claims an
//! invitation, the guardian entry of that invitation becomes theirs.
pub mod errors;
pub mod handlers;
