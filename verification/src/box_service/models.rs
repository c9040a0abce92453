//! The requests and responses of the box service.
use vstd::prelude::*;
use crate::shared::models::{
    unlock_view, BoxRecord, BoxView, Document, Guardian, GuardianBox, UnlockRequest,
};

verus! {

/// A request to create a box.
#[derive(Debug)]
pub struct CreateBoxRequest {
    pub name: String,
    pub description: String,
}

/// A field of a request that may be absent, present with a value, or
/// present as null; the absence is the `None` around it.
#[derive(Debug)]
pub enum OptionalField<T> {
    Value(T),
    Null,
}

/// A request to change some details of a box; absent fields are kept.
#[derive(Debug)]
pub struct UpdateBoxRequest {
    pub name: Option<String>,
    pub description: Option<String>,
    /// Absent: kept; null: cleared; a value: set.
    pub unlock_instructions: Option<OptionalField<String>>,
    pub is_locked: Option<bool>,
}

/// A request to add or replace a document.
#[derive(Debug)]
pub struct DocumentUpdateRequest {
    pub document: Document,
}

/// A request to add or replace a guardian.
#[derive(Debug)]
pub struct GuardianUpdateRequest {
    pub guardian: Guardian,
}

/// A box as its owner sees it.
#[derive(Debug)]
pub struct BoxResponse {
    pub id: String,
    pub name: String,
    pub description: String,
    pub created_at: String,
    pub updated_at: String,
    pub unlock_instructions: Option<String>,
    pub is_locked: bool,
    pub documents: Vec<Document>,
    pub guardians: Vec<Guardian>,
    pub owner_id: String,
    pub owner_name: Option<String>,
    pub unlock_request: Option<UnlockRequest>,
}

impl From<BoxRecord> for BoxResponse {
    fn from(box_rec: BoxRecord) -> (r: Self) {
        BoxResponse {
            id: box_rec.id,
            name: box_rec.name,
            description: box_rec.description,
            created_at: box_rec.created_at,
            updated_at: box_rec.updated_at,
            unlock_instructions: box_rec.unlock_instructions,
            is_locked: box_rec.is_locked,
            documents: box_rec.documents,
            guardians: box_rec.guardians,
            owner_id: box_rec.owner_id,
            owner_name: box_rec.owner_name,
            unlock_request: box_rec.unlock_request,
        }
    }
}

impl vstd::std_specs::convert::FromSpecImpl<BoxRecord> for BoxResponse {
    open spec fn obeys_from_spec() -> bool {
        true
    }

    open spec fn from_spec(box_rec: BoxRecord) -> BoxResponse {
        BoxResponse {
            id: box_rec.id,
            name: box_rec.name,
            description: box_rec.description,
            created_at: box_rec.created_at,
            updated_at: box_rec.updated_at,
            unlock_instructions: box_rec.unlock_instructions,
            is_locked: box_rec.is_locked,
            documents: box_rec.documents,
            guardians: box_rec.guardians,
            owner_id: box_rec.owner_id,
            owner_name: box_rec.owner_name,
            unlock_request: box_rec.unlock_request,
        }
    }
}

/// The owner's response shows every field of the box but its version.
pub open spec fn shows_box(r: BoxResponse, b: BoxView) -> bool {
    &&& r.id == b.id
    &&& r.name == b.name
    &&& r.description == b.description
    &&& r.created_at == b.created_at
    &&& r.updated_at == b.updated_at
    &&& r.unlock_instructions == b.unlock_instructions
    &&& r.is_locked == b.is_locked
    &&& r.documents@ == b.documents
    &&& r.guardians@ == b.guardians
    &&& r.owner_id == b.owner_id
    &&& r.owner_name == b.owner_name
    &&& unlock_view(r.unlock_request) == b.unlock_request
}

/// The documents of a box after a change, with the time of the change.
#[derive(Debug)]
pub struct DocumentUpdateResponse {
    pub documents: Vec<Document>,
    pub updated_at: String,
}

/// A guardian after a change, with all the guardians of the box and the
/// time of the change.
#[derive(Debug)]
pub struct GuardianUpdateResponse {
    pub id: String,
    pub name: String,
    pub status: String,
    pub lead_guardian: bool,
    pub added_at: String,
    pub invitation_id: String,
    pub all_guardians: Vec<Guardian>,
    pub updated_at: String,
}

/// A lead guardian's request to unlock a box.
#[derive(Debug)]
pub struct LeadGuardianUpdateRequest {
    pub message: String,
}

/// A guardian's answer to an unlock request.
#[derive(Debug)]
pub struct GuardianResponseRequest {
    pub approve: Option<bool>,
    pub reject: Option<bool>,
}

/// An invited guardian's answer to the invitation.
#[derive(Debug)]
pub struct GuardianInvitationResponse {
    pub accept: bool,
}

/// A box as one of its guardians sees it, without the version.
#[derive(Debug)]
pub struct GuardianBoxResponse {
    pub id: String,
    pub name: String,
    pub description: String,
    pub is_locked: bool,
    pub created_at: String,
    pub updated_at: String,
    pub owner_id: String,
    pub owner_name: Option<String>,
    pub unlock_instructions: Option<String>,
    pub unlock_request: Option<UnlockRequest>,
    pub pending_guardian_approval: Option<bool>,
    pub guardians_count: usize,
    pub is_lead_guardian: bool,
    pub documents: Vec<Document>,
    pub guardians: Vec<Guardian>,
}

impl From<GuardianBox> for GuardianBoxResponse {
    fn from(guard_box: GuardianBox) -> (r: Self) {
        GuardianBoxResponse {
            id: guard_box.id,
            name: guard_box.name,
            description: guard_box.description,
            is_locked: guard_box.is_locked,
            created_at: guard_box.created_at,
            updated_at: guard_box.updated_at,
            owner_id: guard_box.owner_id,
            owner_name: guard_box.owner_name,
            unlock_instructions: guard_box.unlock_instructions,
            unlock_request: guard_box.unlock_request,
            pending_guardian_approval: guard_box.pending_guardian_approval,
            guardians_count: guard_box.guardians_count,
            is_lead_guardian: guard_box.is_lead_guardian,
            documents: guard_box.documents,
            guardians: guard_box.guardians,
        }
    }
}

impl vstd::std_specs::convert::FromSpecImpl<GuardianBox> for GuardianBoxResponse {
    open spec fn obeys_from_spec() -> bool {
        true
    }

    open spec fn from_spec(guard_box: GuardianBox) -> GuardianBoxResponse {
        GuardianBoxResponse {
            id: guard_box.id,
            name: guard_box.name,
            description: guard_box.description,
            is_locked: guard_box.is_locked,
            created_at: guard_box.created_at,
            updated_at: guard_box.updated_at,
            owner_id: guard_box.owner_id,
            owner_name: guard_box.owner_name,
            unlock_instructions: guard_box.unlock_instructions,
            unlock_request: guard_box.unlock_request,
            pending_guardian_approval: guard_box.pending_guardian_approval,
            guardians_count: guard_box.guardians_count,
            is_lead_guardian: guard_box.is_lead_guardian,
            documents: guard_box.documents,
            guardians: guard_box.guardians,
        }
    }
}

/// The body of an error response.
#[derive(Debug)]
pub struct ErrorResponse {
    pub error: String,
}

/// A message, with the box it concerns where there is one.
#[derive(Debug)]
pub struct MessageResponse {
    pub message: String,
    pub box_id: Option<String>,
}

} // verus!
