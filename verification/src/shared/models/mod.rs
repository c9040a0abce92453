//! The records of the lockbox domain: boxes, their documents, guardians and
//! unlock requests, and invitations.
use vstd::prelude::*;
use crate::keyed::{any_satisfies, first_satisfying, lemma_first_satisfying};
use crate::text::{concat, eq_str, owned};
use crate::shared::clock::{chrono_represents, format_rfc3339, now_instant, rfc3339_text, Instant};

pub mod events;

verus! {

/// The state of an invitation.
#[derive(Clone, Copy, Debug, PartialEq, Eq, Structural)]
pub enum InvitationStatus {
    Invited,
    Opened,
    Accepted,
    Rejected,
}

/// The name of an invitation status.
pub open spec fn invitation_status_name(s: InvitationStatus) -> Seq<char> {
    match s {
        InvitationStatus::Invited => "invited"@,
        InvitationStatus::Opened => "opened"@,
        InvitationStatus::Accepted => "accepted"@,
        InvitationStatus::Rejected => "rejected"@,
    }
}

/// The invitation status a name denotes, if any.
pub open spec fn parse_invitation_status(s: Seq<char>) -> Option<InvitationStatus> {
    if s == "invited"@ {
        Some(InvitationStatus::Invited)
    } else if s == "opened"@ {
        Some(InvitationStatus::Opened)
    } else if s == "accepted"@ {
        Some(InvitationStatus::Accepted)
    } else if s == "rejected"@ {
        Some(InvitationStatus::Rejected)
    } else {
        None
    }
}

impl InvitationStatus {
    /// Parses a lower-case status name.
    pub fn from_str(s: &str) -> (r: Result<InvitationStatus, String>)
        ensures
            match r {
                Ok(st) => parse_invitation_status(s@) == Some(st),
                Err(msg) => parse_invitation_status(s@) is None && msg@
                    == "Unknown invitation status: "@ + s@,
            },
    {
        let o = owned(s);
        if eq_str(&o, "invited") {
            Ok(InvitationStatus::Invited)
        } else if eq_str(&o, "opened") {
            Ok(InvitationStatus::Opened)
        } else if eq_str(&o, "accepted") {
            Ok(InvitationStatus::Accepted)
        } else if eq_str(&o, "rejected") {
            Ok(InvitationStatus::Rejected)
        } else {
            Err(concat("Unknown invitation status: ", s))
        }
    }

    /// The lower-case name of the status.
    pub fn to_string(&self) -> (r: String)
        ensures
            r@ == invitation_status_name(*self),
    {
        match self {
            InvitationStatus::Invited => owned("invited"),
            InvitationStatus::Opened => owned("opened"),
            InvitationStatus::Accepted => owned("accepted"),
            InvitationStatus::Rejected => owned("rejected"),
        }
    }
}

/// The state of a guardian's membership of a box.
#[derive(Clone, Copy, Debug, PartialEq, Eq, Structural)]
pub enum GuardianStatus {
    Invited,
    Viewed,
    Accepted,
    Rejected,
}

/// The name of a guardian status.
pub open spec fn guardian_status_name(s: GuardianStatus) -> Seq<char> {
    match s {
        GuardianStatus::Invited => "invited"@,
        GuardianStatus::Viewed => "viewed"@,
        GuardianStatus::Accepted => "accepted"@,
        GuardianStatus::Rejected => "rejected"@,
    }
}

/// The guardian status a name denotes, if any.
pub open spec fn parse_guardian_status(s: Seq<char>) -> Option<GuardianStatus> {
    if s == "invited"@ {
        Some(GuardianStatus::Invited)
    } else if s == "viewed"@ {
        Some(GuardianStatus::Viewed)
    } else if s == "accepted"@ {
        Some(GuardianStatus::Accepted)
    } else if s == "rejected"@ {
        Some(GuardianStatus::Rejected)
    } else {
        None
    }
}

impl GuardianStatus {
    /// Parses a lower-case status name.
    pub fn from_str(s: &str) -> (r: Result<GuardianStatus, String>)
        ensures
            match r {
                Ok(st) => parse_guardian_status(s@) == Some(st),
                Err(msg) => parse_guardian_status(s@) is None && msg@
                    == "Unknown guardian status: "@ + s@,
            },
    {
        let o = owned(s);
        if eq_str(&o, "invited") {
            Ok(GuardianStatus::Invited)
        } else if eq_str(&o, "viewed") {
            Ok(GuardianStatus::Viewed)
        } else if eq_str(&o, "accepted") {
            Ok(GuardianStatus::Accepted)
        } else if eq_str(&o, "rejected") {
            Ok(GuardianStatus::Rejected)
        } else {
            Err(concat("Unknown guardian status: ", s))
        }
    }

    /// The lower-case name of the status.
    pub fn to_string(&self) -> (r: String)
        ensures
            r@ == guardian_status_name(*self),
    {
        match self {
            GuardianStatus::Invited => owned("invited"),
            GuardianStatus::Viewed => owned("viewed"),
            GuardianStatus::Accepted => owned("accepted"),
            GuardianStatus::Rejected => owned("rejected"),
        }
    }
}

/// The state of an unlock request.
#[derive(Clone, Copy, Debug, PartialEq, Eq, Structural)]
pub enum UnlockRequestStatus {
    /// Initial state when the request is created.
    Requested,
    /// Enough guardians have approved.
    Approved,
    /// The request has been rejected.
    Rejected,
    /// The box has been unlocked.
    Completed,
}

/// The name of an unlock request status.
pub open spec fn unlock_status_name(s: UnlockRequestStatus) -> Seq<char> {
    match s {
        UnlockRequestStatus::Requested => "requested"@,
        UnlockRequestStatus::Approved => "approved"@,
        UnlockRequestStatus::Rejected => "rejected"@,
        UnlockRequestStatus::Completed => "completed"@,
    }
}

/// The unlock request status a name denotes, if any; the older name
/// "invited" still denotes a fresh request.
pub open spec fn parse_unlock_status(s: Seq<char>) -> Option<UnlockRequestStatus> {
    if s == "requested"@ {
        Some(UnlockRequestStatus::Requested)
    } else if s == "invited"@ {
        Some(UnlockRequestStatus::Requested)
    } else if s == "approved"@ {
        Some(UnlockRequestStatus::Approved)
    } else if s == "rejected"@ {
        Some(UnlockRequestStatus::Rejected)
    } else if s == "completed"@ {
        Some(UnlockRequestStatus::Completed)
    } else {
        None
    }
}

impl UnlockRequestStatus {
    /// Parses a lower-case status name.
    pub fn from_str(s: &str) -> (r: Result<UnlockRequestStatus, String>)
        ensures
            match r {
                Ok(st) => parse_unlock_status(s@) == Some(st),
                Err(msg) => parse_unlock_status(s@) is None && msg@
                    == "Unknown unlock request status: "@ + s@,
            },
    {
        let o = owned(s);
        if eq_str(&o, "requested") {
            Ok(UnlockRequestStatus::Requested)
        } else if eq_str(&o, "invited") {
            Ok(UnlockRequestStatus::Requested)
        } else if eq_str(&o, "approved") {
            Ok(UnlockRequestStatus::Approved)
        } else if eq_str(&o, "rejected") {
            Ok(UnlockRequestStatus::Rejected)
        } else if eq_str(&o, "completed") {
            Ok(UnlockRequestStatus::Completed)
        } else {
            Err(concat("Unknown unlock request status: ", s))
        }
    }

    /// The lower-case name of the status.
    pub fn to_string(&self) -> (r: String)
        ensures
            r@ == unlock_status_name(*self),
    {
        match self {
            UnlockRequestStatus::Requested => owned("requested"),
            UnlockRequestStatus::Approved => owned("approved"),
            UnlockRequestStatus::Rejected => owned("rejected"),
            UnlockRequestStatus::Completed => owned("completed"),
        }
    }
}

/// Every invitation status reads back from its name.
pub proof fn lemma_invitation_status_round_trip(s: InvitationStatus)
    ensures
        parse_invitation_status(invitation_status_name(s)) == Some(s),
{
    reveal_strlit("invited");
    reveal_strlit("opened");
    reveal_strlit("accepted");
    reveal_strlit("rejected");
    assert("invited"@[0] == 'i' && "invited"@.len() == 7);
    assert("opened"@[0] == 'o' && "opened"@.len() == 6);
    assert("accepted"@[0] == 'a' && "accepted"@.len() == 8);
    assert("rejected"@[0] == 'r' && "rejected"@.len() == 8);
    assert("opened"@ != "invited"@);
    assert("accepted"@ != "invited"@ && "accepted"@ != "opened"@);
    assert("rejected"@ != "invited"@ && "rejected"@ != "opened"@ && "rejected"@ != "accepted"@);
}

/// Every guardian status reads back from its name.
pub proof fn lemma_guardian_status_round_trip(s: GuardianStatus)
    ensures
        parse_guardian_status(guardian_status_name(s)) == Some(s),
{
    reveal_strlit("invited");
    reveal_strlit("viewed");
    reveal_strlit("accepted");
    reveal_strlit("rejected");
    assert("invited"@[0] == 'i' && "invited"@.len() == 7);
    assert("viewed"@[0] == 'v' && "viewed"@.len() == 6);
    assert("accepted"@[0] == 'a' && "accepted"@.len() == 8);
    assert("rejected"@[0] == 'r' && "rejected"@.len() == 8);
    assert("viewed"@ != "invited"@);
    assert("accepted"@ != "invited"@ && "accepted"@ != "viewed"@);
    assert("rejected"@ != "invited"@ && "rejected"@ != "viewed"@ && "rejected"@ != "accepted"@);
}

/// Every unlock request status reads back from its name.
pub proof fn lemma_unlock_status_round_trip(s: UnlockRequestStatus)
    ensures
        parse_unlock_status(unlock_status_name(s)) == Some(s),
{
    reveal_strlit("requested");
    reveal_strlit("invited");
    reveal_strlit("approved");
    reveal_strlit("rejected");
    reveal_strlit("completed");
    assert("requested"@[0] == 'r' && "requested"@.len() == 9);
    assert("invited"@[0] == 'i' && "invited"@.len() == 7);
    assert("approved"@[0] == 'a' && "approved"@.len() == 8);
    assert("rejected"@[0] == 'r' && "rejected"@.len() == 8);
    assert("completed"@[0] == 'c' && "completed"@.len() == 9);
    assert("approved"@ != "requested"@ && "approved"@ != "invited"@);
    assert("rejected"@ != "requested"@ && "rejected"@ != "invited"@ && "rejected"@ != "approved"@);
    assert("completed"@ != "requested"@ && "completed"@ != "invited"@ && "completed"@
        != "approved"@ && "completed"@ != "rejected"@);
}

/// A name that parses to a status is that status's name, for every
/// invitation and guardian status name, and for every unlock request status
/// name but the older "invited".
pub proof fn lemma_status_names_canonical(s: Seq<char>)
    ensures
        parse_invitation_status(s) matches Some(st) ==> invitation_status_name(st) == s,
        parse_guardian_status(s) matches Some(st) ==> guardian_status_name(st) == s,
        s != "invited"@ ==> (parse_unlock_status(s) matches Some(st) ==> unlock_status_name(st)
            == s),
{
}

/// An invitation to become the guardian of a box.
#[derive(Debug)]
pub struct Invitation {
    pub id: String,
    /// The unique code of the deep link.
    pub invite_code: String,
    pub invited_name: String,
    /// The box the invitation is for.
    pub box_id: String,
    pub created_at: String,
    /// When the code stops being usable (48 hours after it is issued).
    pub expires_at: String,
    pub opened: bool,
    /// The user who opened the invitation.
    pub linked_user_id: Option<String>,
    /// The user who created the invitation.
    pub creator_id: String,
}

impl Clone for Invitation {
    fn clone(&self) -> (r: Self)
        ensures
            r == *self,
    {
        Invitation {
            id: self.id.clone(),
            invite_code: self.invite_code.clone(),
            invited_name: self.invited_name.clone(),
            box_id: self.box_id.clone(),
            created_at: self.created_at.clone(),
            expires_at: self.expires_at.clone(),
            opened: self.opened,
            linked_user_id: self.linked_user_id.clone(),
            creator_id: self.creator_id.clone(),
        }
    }
}

/// A document kept in a box.
#[derive(Debug)]
pub struct Document {
    pub id: String,
    pub title: String,
    pub content: String,
    pub created_at: String,
}

impl Clone for Document {
    fn clone(&self) -> (r: Self)
        ensures
            r == *self,
    {
        Document {
            id: self.id.clone(),
            title: self.title.clone(),
            content: self.content.clone(),
            created_at: self.created_at.clone(),
        }
    }
}

/// A guardian of a box. `status` holds the name of a `GuardianStatus`.
#[derive(Debug)]
pub struct Guardian {
    /// The guardian's user id.
    pub id: String,
    pub name: String,
    pub lead_guardian: bool,
    pub status: String,
    pub added_at: String,
    pub invitation_id: String,
}

impl Clone for Guardian {
    fn clone(&self) -> (r: Self)
        ensures
            r == *self,
    {
        Guardian {
            id: self.id.clone(),
            name: self.name.clone(),
            lead_guardian: self.lead_guardian,
            status: self.status.clone(),
            added_at: self.added_at.clone(),
            invitation_id: self.invitation_id.clone(),
        }
    }
}

/// A request by a lead guardian to unlock a box, with the guardians that
/// approved or rejected it.
#[derive(Debug)]
pub struct UnlockRequest {
    pub id: String,
    pub requested_at: String,
    pub status: String,
    pub message: Option<String>,
    pub initiated_by: Option<String>,
    pub approved_by: Vec<String>,
    pub rejected_by: Vec<String>,
}

/// A copy of a list of strings.
pub fn copy_strings(v: &Vec<String>) -> (r: Vec<String>)
    ensures
        r@ == v@,
{
    let r = v.clone();
    assert(r@ =~= v@);
    r
}

/// A copy of a list of documents.
pub fn copy_documents(v: &Vec<Document>) -> (r: Vec<Document>)
    ensures
        r@ == v@,
{
    let r = v.clone();
    assert(r@ =~= v@);
    r
}

/// A copy of a list of guardians.
pub fn copy_guardians(v: &Vec<Guardian>) -> (r: Vec<Guardian>)
    ensures
        r@ == v@,
{
    let r = v.clone();
    assert(r@ =~= v@);
    r
}

/// The contents of an unlock request, with its lists as sequences.
pub ghost struct UnlockRequestView {
    pub id: String,
    pub requested_at: String,
    pub status: String,
    pub message: Option<String>,
    pub initiated_by: Option<String>,
    pub approved_by: Seq<String>,
    pub rejected_by: Seq<String>,
}

impl View for UnlockRequest {
    type V = UnlockRequestView;

    open spec fn view(&self) -> UnlockRequestView {
        UnlockRequestView {
            id: self.id,
            requested_at: self.requested_at,
            status: self.status,
            message: self.message,
            initiated_by: self.initiated_by,
            approved_by: self.approved_by@,
            rejected_by: self.rejected_by@,
        }
    }
}

/// The view of an optional unlock request.
pub open spec fn unlock_view(u: Option<UnlockRequest>) -> Option<UnlockRequestView> {
    match u {
        Some(r) => Some(r@),
        None => None,
    }
}

impl Clone for UnlockRequest {
    fn clone(&self) -> (r: Self)
        ensures
            r@ == self@,
    {
        UnlockRequest {
            id: self.id.clone(),
            requested_at: self.requested_at.clone(),
            status: self.status.clone(),
            message: self.message.clone(),
            initiated_by: self.initiated_by.clone(),
            approved_by: copy_strings(&self.approved_by),
            rejected_by: copy_strings(&self.rejected_by),
        }
    }
}

/// A box: documents kept by an owner, guarded by guardians who may be asked
/// to unlock it.
#[derive(Debug)]
pub struct BoxRecord {
    pub id: String,
    pub name: String,
    pub description: String,
    pub is_locked: bool,
    pub created_at: String,
    pub updated_at: String,
    pub owner_id: String,
    pub owner_name: Option<String>,
    pub documents: Vec<Document>,
    pub guardians: Vec<Guardian>,
    pub unlock_instructions: Option<String>,
    pub unlock_request: Option<UnlockRequest>,
    /// The version the store checks on update (optimistic concurrency).
    pub version: u64,
}

/// The contents of a box, with its lists as sequences.
pub ghost struct BoxView {
    pub id: String,
    pub name: String,
    pub description: String,
    pub is_locked: bool,
    pub created_at: String,
    pub updated_at: String,
    pub owner_id: String,
    pub owner_name: Option<String>,
    pub documents: Seq<Document>,
    pub guardians: Seq<Guardian>,
    pub unlock_instructions: Option<String>,
    pub unlock_request: Option<UnlockRequestView>,
    pub version: u64,
}

impl View for BoxRecord {
    type V = BoxView;

    open spec fn view(&self) -> BoxView {
        BoxView {
            id: self.id,
            name: self.name,
            description: self.description,
            is_locked: self.is_locked,
            created_at: self.created_at,
            updated_at: self.updated_at,
            owner_id: self.owner_id,
            owner_name: self.owner_name,
            documents: self.documents@,
            guardians: self.guardians@,
            unlock_instructions: self.unlock_instructions,
            unlock_request: unlock_view(self.unlock_request),
            version: self.version,
        }
    }
}

impl Clone for BoxRecord {
    fn clone(&self) -> (r: Self)
        ensures
            r@ == self@,
    {
        BoxRecord {
            id: self.id.clone(),
            name: self.name.clone(),
            description: self.description.clone(),
            is_locked: self.is_locked,
            created_at: self.created_at.clone(),
            updated_at: self.updated_at.clone(),
            owner_id: self.owner_id.clone(),
            owner_name: self.owner_name.clone(),
            documents: copy_documents(&self.documents),
            guardians: copy_guardians(&self.guardians),
            unlock_instructions: self.unlock_instructions.clone(),
            unlock_request: match &self.unlock_request {
                Some(u) => Some(u.clone()),
                None => None,
            },
            version: self.version,
        }
    }
}

/// A box as one of its guardians sees it.
#[derive(Debug)]
pub struct GuardianBox {
    pub id: String,
    pub name: String,
    pub description: String,
    pub is_locked: bool,
    pub created_at: String,
    pub updated_at: String,
    pub owner_id: String,
    pub owner_name: Option<String>,
    pub unlock_instructions: Option<String>,
    pub unlock_request: Option<UnlockRequest>,
    pub pending_guardian_approval: Option<bool>,
    pub guardians_count: usize,
    pub is_lead_guardian: bool,
    pub documents: Vec<Document>,
    pub guardians: Vec<Guardian>,
}

/// The body of an error response.
#[derive(Debug)]
pub struct ErrorResponse {
    pub error: String,
}

/// The body of a message response, with the box it concerns where there is one.
#[derive(Debug)]
pub struct MessageResponse {
    pub message: String,
    pub box_id: Option<String>,
}

/// Guardian `g` is user `user` and has not rejected the box.
pub open spec fn is_active_guardian(g: Guardian, user: Seq<char>) -> bool {
    g.id@ == user && g.status@ != "rejected"@
}

/// User `user` is one of the guardians `gs` and has not rejected the box.
pub open spec fn has_active_guardian_in(gs: Seq<Guardian>, user: Seq<char>) -> bool {
    exists|i: int| 0 <= i < gs.len() && is_active_guardian(#[trigger] gs[i], user)
}

/// User `user` is a guardian of `b` who has not rejected it.
pub open spec fn has_active_guardian(b: BoxRecord, user: Seq<char>) -> bool {
    has_active_guardian_in(b.guardians@, user)
}

/// Whether guardian `g` is user `user` and has not rejected the box.
pub fn guardian_is_active(g: &Guardian, user: &str) -> (r: bool)
    ensures
        r == is_active_guardian(*g, user@),
{
    eq_str(&g.id, user) && !eq_str(&g.status, "rejected")
}

/// The position of the first guardian of `gs` that is `user` and has not
/// rejected the box.
pub fn find_active_guardian(gs: &Vec<Guardian>, user: &str) -> (r: Option<usize>)
    ensures
        match r {
            Some(i) => i < gs@.len() && is_active_guardian(gs@[i as int], user@) && forall|j: int|
                0 <= j < i ==> !is_active_guardian(#[trigger] gs@[j], user@),
            None => forall|j: int|
                0 <= j < gs@.len() ==> !is_active_guardian(#[trigger] gs@[j], user@),
        },
{
    let mut i: usize = 0;
    while i < gs.len()
        invariant
            i <= gs@.len(),
            forall|j: int| 0 <= j < i ==> !is_active_guardian(#[trigger] gs@[j], user@),
        decreases gs@.len() - i,
    {
        if guardian_is_active(&gs[i], user) {
            return Some(i);
        }
        i = i + 1;
    }
    None
}

/// Whether user `user` is a guardian of `b` who has not rejected it.
pub fn box_has_active_guardian(b: &BoxRecord, user: &str) -> (r: bool)
    ensures
        r == has_active_guardian(*b, user@),
{
    match find_active_guardian(&b.guardians, user) {
        Some(i) => {
            assert(is_active_guardian(b.guardians@[i as int], user@));
            true
        },
        None => false,
    }
}

/// Guardian `g` joined through invitation `invitation_id`.
pub open spec fn invited_by(invitation_id: Seq<char>) -> spec_fn(Guardian) -> bool {
    |g: Guardian| g.invitation_id@ == invitation_id
}

/// The position of the first guardian that joined through the invitation.
pub fn find_guardian_by_invitation(gs: &Vec<Guardian>, invitation_id: &str) -> (r: Option<usize>)
    ensures
        match r {
            Some(i) => any_satisfies(gs@, invited_by(invitation_id@)) && i == first_satisfying(
                gs@,
                invited_by(invitation_id@),
            ) && i < gs@.len(),
            None => !any_satisfies(gs@, invited_by(invitation_id@)),
        },
{
    let mut i: usize = 0;
    while i < gs.len()
        invariant
            i <= gs@.len(),
            forall|j: int| 0 <= j < i ==> !(#[trigger] (invited_by(invitation_id@))(gs@[j])),
        decreases gs@.len() - i,
    {
        if eq_str(&gs[i].invitation_id, invitation_id) {
            assert((invited_by(invitation_id@))(gs@[i as int]));
            proof {
                let k = lemma_first_satisfying(gs@, invited_by(invitation_id@));
                assert(k == i) by {
                    if k < i {
                    } else if k > i {
                    }
                }
            }
            return Some(i);
        }
        i = i + 1;
    }
    None
}

/// The current time as an RFC 3339 string: the text chrono writes for the
/// clock's reading. Which reading it is depends on the clock.
pub fn now_str() -> (r: String)
    ensures
        exists|t: Instant|
            #[trigger] chrono_represents(t.secs as int, t.nanos) && r@ == rfc3339_text(
                t.secs,
                t.nanos,
            ),
{
    let now = now_instant();
    match format_rfc3339(&now) {
        Some(s) => s,
        None => {
            assert(false);
            String::new()
        },
    }
}

} // verus!
