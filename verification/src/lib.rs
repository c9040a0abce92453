//! A lockbox service: boxes of documents guarded by guardians, unlock
//! requests, and invitations that turn invited people into guardians.
pub mod text;
pub mod keyed;
pub mod shared;
pub mod box_service;
pub mod invitation_service;
pub mod event_service;
pub mod invitation_handler;
pub mod user_service;
pub mod legacy;
