//! The errors of the invitation event service.
use vstd::prelude::*;
use crate::shared::error::{store_error_message, StoreError};
use crate::text::concat;

verus! {

/// An error about the content of an invitation event.
#[derive(Debug)]
pub enum InvitationEventError {
    MissingField(String),
    BoxNotFound(String),
    UpdateError(String),
    StoreError(String),
}

/// The message an event error displays.
pub open spec fn event_error_display(e: InvitationEventError) -> Seq<char> {
    match e {
        InvitationEventError::MissingField(m) => "Missing required field: "@ + m@,
        InvitationEventError::BoxNotFound(m) => "Box not found: "@ + m@,
        InvitationEventError::UpdateError(m) => "Failed to update box: "@ + m@,
        InvitationEventError::StoreError(m) => "Store error: "@ + m@,
    }
}

impl InvitationEventError {
    /// The message the error displays.
    pub fn to_string(&self) -> (r: String)
        ensures
            r@ == event_error_display(*self),
    {
        match self {
            InvitationEventError::MissingField(m) => concat("Missing required field: ", m.as_str()),
            InvitationEventError::BoxNotFound(m) => concat("Box not found: ", m.as_str()),
            InvitationEventError::UpdateError(m) => concat("Failed to update box: ", m.as_str()),
            InvitationEventError::StoreError(m) => concat("Store error: ", m.as_str()),
        }
    }

    /// The event error for a store error: a missing record is a missing
    /// box, a version conflict a failed update.
    pub fn from(err: StoreError) -> (r: Self)
        ensures
            match err {
                StoreError::NotFound(m) => r == InvitationEventError::BoxNotFound(m),
                StoreError::VersionConflict(m) => r matches InvitationEventError::UpdateError(s)
                    && s@ == "Concurrent update conflict: "@ + m@,
                _ => r matches InvitationEventError::StoreError(s) && s@ == store_error_message(
                    err,
                ),
            },
    {
        match err {
            StoreError::NotFound(msg) => InvitationEventError::BoxNotFound(msg),
            StoreError::VersionConflict(msg) => InvitationEventError::UpdateError(
                concat("Concurrent update conflict: ", msg.as_str()),
            ),
            _ => InvitationEventError::StoreError(err.to_string()),
        }
    }
}

/// An error of processing an invitation event.
#[derive(Debug)]
pub enum AppError {
    VersionConflict(String),
    GuardianNotFound(String),
    BoxNotFound(String),
    InternalError(String),
}

/// The message an error displays.
pub open spec fn display_of(e: AppError) -> Seq<char> {
    match e {
        AppError::VersionConflict(m) => "Version conflict: "@ + m@,
        AppError::GuardianNotFound(m) => "Guardian not found: "@ + m@,
        AppError::BoxNotFound(m) => "Box not found: "@ + m@,
        AppError::InternalError(m) => "Internal error: "@ + m@,
    }
}

impl AppError {
    /// The message the error displays.
    pub fn to_string(&self) -> (r: String)
        ensures
            r@ == display_of(*self),
    {
        match self {
            AppError::VersionConflict(m) => concat("Version conflict: ", m.as_str()),
            AppError::GuardianNotFound(m) => concat("Guardian not found: ", m.as_str()),
            AppError::BoxNotFound(m) => concat("Box not found: ", m.as_str()),
            AppError::InternalError(m) => concat("Internal error: ", m.as_str()),
        }
    }

    /// The service error for a store error: a version conflict stays one, a
    /// missing record is a missing box, and anything else is internal.
    pub fn from(err: StoreError) -> (r: Self)
        ensures
            match err {
                StoreError::VersionConflict(m) => r == AppError::VersionConflict(m),
                StoreError::NotFound(m) => r == AppError::BoxNotFound(m),
                _ => r matches AppError::InternalError(s) && s@ == store_error_message(err),
            },
    {
        match err {
            StoreError::VersionConflict(msg) => AppError::VersionConflict(msg),
            StoreError::NotFound(msg) => AppError::BoxNotFound(msg),
            _ => AppError::InternalError(err.to_string()),
        }
    }

    /// The internal error reporting an event error, by its displayed
    /// message.
    pub fn from_event_error(err: InvitationEventError) -> (r: Self)
        ensures
            r matches AppError::InternalError(s) && s@ == event_error_display(err),
    {
        AppError::InternalError(err.to_string())
    }
}

} // verus!
