//! Models, errors, stores and authentication shared by the services.
pub mod auth;
pub mod clock;
pub mod dynamo;
pub mod error;
pub mod ids;
pub mod mock_box_store;
pub mod mock_invitation_store;
pub mod models;
pub mod store;
pub mod tables;
