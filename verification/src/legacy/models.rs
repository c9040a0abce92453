//! The records, requests and responses of the single-service API.
use vstd::prelude::*;
use crate::shared::models::{unlock_view, Document, UnlockRequest, UnlockRequestView};

verus! {

/// A guardian of a box. `status` is "pending", "accepted" or "rejected".
#[derive(Debug)]
pub struct Guardian {
    /// The guardian's user id.
    pub id: String,
    pub name: String,
    pub email: String,
    pub lead: bool,
    pub status: String,
    pub added_at: String,
}

impl Clone for Guardian {
    fn clone(&self) -> (r: Self)
        ensures
            r == *self,
    {
        Guardian {
            id: self.id.clone(),
            name: self.name.clone(),
            email: self.email.clone(),
            lead: self.lead,
            status: self.status.clone(),
            added_at: self.added_at.clone(),
        }
    }
}

/// A box, with its lead guardians also listed on their own.
#[derive(Debug)]
pub struct BoxRecord {
    pub id: String,
    pub name: String,
    pub description: String,
    pub is_locked: bool,
    pub created_at: String,
    pub updated_at: String,
    pub owner_id: String,
    pub owner_name: Option<String>,
    pub documents: Vec<Document>,
    pub guardians: Vec<Guardian>,
    pub lead_guardians: Vec<Guardian>,
    pub unlock_instructions: Option<String>,
    pub unlock_request: Option<UnlockRequest>,
}

/// The contents of a box, with its lists as sequences.
pub ghost struct BoxView {
    pub id: String,
    pub name: String,
    pub description: String,
    pub is_locked: bool,
    pub created_at: String,
    pub updated_at: String,
    pub owner_id: String,
    pub owner_name: Option<String>,
    pub documents: Seq<Document>,
    pub guardians: Seq<Guardian>,
    pub lead_guardians: Seq<Guardian>,
    pub unlock_instructions: Option<String>,
    pub unlock_request: Option<UnlockRequestView>,
}

impl View for BoxRecord {
    type V = BoxView;

    open spec fn view(&self) -> BoxView {
        BoxView {
            id: self.id,
            name: self.name,
            description: self.description,
            is_locked: self.is_locked,
            created_at: self.created_at,
            updated_at: self.updated_at,
            owner_id: self.owner_id,
            owner_name: self.owner_name,
            documents: self.documents@,
            guardians: self.guardians@,
            lead_guardians: self.lead_guardians@,
            unlock_instructions: self.unlock_instructions,
            unlock_request: unlock_view(self.unlock_request),
        }
    }
}

/// A copy of a list of guardians.
pub fn copy_guardians(v: &Vec<Guardian>) -> (r: Vec<Guardian>)
    ensures
        r@ == v@,
{
    let r = v.clone();
    assert(r@ =~= v@);
    r
}

impl Clone for BoxRecord {
    fn clone(&self) -> (r: Self)
        ensures
            r@ == self@,
    {
        BoxRecord {
            id: self.id.clone(),
            name: self.name.clone(),
            description: self.description.clone(),
            is_locked: self.is_locked,
            created_at: self.created_at.clone(),
            updated_at: self.updated_at.clone(),
            owner_id: self.owner_id.clone(),
            owner_name: self.owner_name.clone(),
            documents: crate::shared::models::copy_documents(&self.documents),
            guardians: copy_guardians(&self.guardians),
            lead_guardians: copy_guardians(&self.lead_guardians),
            unlock_instructions: self.unlock_instructions.clone(),
            unlock_request: match &self.unlock_request {
                Some(u) => Some(u.clone()),
                None => None,
            },
        }
    }
}

/// A box as one of its guardians sees it.
#[derive(Debug)]
pub struct GuardianBox {
    pub id: String,
    pub name: String,
    pub description: String,
    pub is_locked: bool,
    pub created_at: String,
    pub updated_at: String,
    pub owner_id: String,
    pub owner_name: Option<String>,
    pub unlock_instructions: Option<String>,
    pub unlock_request: Option<UnlockRequest>,
    pub pending_guardian_approval: Option<bool>,
    pub guardians_count: usize,
    pub is_lead_guardian: bool,
}

/// A request to create a box.
#[derive(Debug)]
pub struct CreateBoxRequest {
    pub name: String,
    pub description: String,
}

/// A request to change some details of a box; absent fields are kept.
#[derive(Debug)]
pub struct UpdateBoxRequest {
    pub name: Option<String>,
    pub description: Option<String>,
    /// Absent: kept; null: cleared; a value: set.
    pub unlock_instructions: Option<crate::box_service::models::OptionalField<String>>,
    pub is_locked: Option<bool>,
}

/// A request by a lead guardian to unlock a box.
#[derive(Debug)]
pub struct LeadGuardianUpdateRequest {
    pub message: String,
}

/// A guardian's answer to an unlock request.
#[derive(Debug)]
pub struct GuardianResponseRequest {
    pub approve: Option<bool>,
    pub reject: Option<bool>,
}

/// A guardian's answer to an invitation.
#[derive(Debug)]
pub struct GuardianInvitationResponse {
    pub accept: bool,
}

/// A request to add or replace a guardian.
#[derive(Debug)]
pub struct GuardianUpdateRequest {
    pub guardian: Guardian,
}

/// A request to add or replace a document.
#[derive(Debug)]
pub struct DocumentUpdateRequest {
    pub document: Document,
}

/// A box as its owner sees it in lists and after changes.
#[derive(Debug)]
pub struct BoxResponse {
    pub id: String,
    pub name: String,
    pub description: String,
    pub created_at: String,
    pub updated_at: String,
    pub unlock_instructions: Option<String>,
    pub is_locked: bool,
}

/// `r` shows box `b` to its owner.
pub open spec fn shows_box(r: BoxResponse, b: BoxView) -> bool {
    &&& r.id == b.id
    &&& r.name == b.name
    &&& r.description == b.description
    &&& r.created_at == b.created_at
    &&& r.updated_at == b.updated_at
    &&& r.unlock_instructions == b.unlock_instructions
    &&& r.is_locked == b.is_locked
}

/// The owner's view of a box.
pub fn box_response(b: &BoxRecord) -> (r: BoxResponse)
    ensures
        shows_box(r, b@),
{
    BoxResponse {
        id: b.id.clone(),
        name: b.name.clone(),
        description: b.description.clone(),
        created_at: b.created_at.clone(),
        updated_at: b.updated_at.clone(),
        unlock_instructions: b.unlock_instructions.clone(),
        is_locked: b.is_locked,
    }
}

/// The guardians of a box after a change, with the time of the change.
#[derive(Debug)]
pub struct GuardianUpdateResponse {
    pub guardians: Vec<Guardian>,
    pub updated_at: String,
}

/// The documents of a box after a change, with the time of the change.
#[derive(Debug)]
pub struct DocumentUpdateResponse {
    pub documents: Vec<Document>,
    pub updated_at: String,
}

/// The body of an error response.
#[derive(Debug)]
pub struct ErrorResponse {
    pub error: String,
}

/// The body of a message response.
#[derive(Debug)]
pub struct MessageResponse {
    pub message: String,
}

} // verus!
