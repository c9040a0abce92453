//! The events the invitation service publishes.
use vstd::prelude::*;

verus! {

/// An event about an invitation.
#[derive(Debug)]
pub struct InvitationEvent {
    pub event_type: String,
    pub invitation_id: String,
    pub box_id: String,
    pub user_id: Option<String>,
    pub invite_code: String,
    pub timestamp: String,
}

impl Clone for InvitationEvent {
    fn clone(&self) -> (r: Self)
        ensures
            r == *self,
    {
        InvitationEvent {
            event_type: self.event_type.clone(),
            invitation_id: self.invitation_id.clone(),
            box_id: self.box_id.clone(),
            user_id: self.user_id.clone(),
            invite_code: self.invite_code.clone(),
            timestamp: self.timestamp.clone(),
        }
    }
}

} // verus!
