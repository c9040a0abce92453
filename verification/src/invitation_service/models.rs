//! The requests and responses of the invitation service.
use vstd::prelude::*;

verus! {

/// A request to invite someone to a box.
#[derive(Debug)]
pub struct CreateInvitationRequest {
    pub invited_name: String,
    pub box_id: String,
}

/// A request to claim an invitation by its code.
#[derive(Debug)]
pub struct ConnectToUserRequest {
    pub user_id: String,
    pub invite_code: String,
}

/// An invitation's code and when it expires.
#[derive(Debug)]
pub struct InvitationCodeResponse {
    pub invite_code: String,
    pub expires_at: String,
}

/// A message, with the box it concerns where there is one.
#[derive(Debug)]
pub struct MessageResponse {
    pub message: String,
    pub box_id: Option<String>,
}

} // verus!
