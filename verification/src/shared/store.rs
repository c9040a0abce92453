//! The storage interfaces for invitations and boxes, and the guardian's view
//! of a box.
use vstd::prelude::*;
use crate::shared::error::StoreError;
use crate::shared::models::{
    copy_documents, copy_guardians, find_active_guardian, has_active_guardian,
    has_active_guardian_in, is_active_guardian, unlock_view, BoxRecord, BoxView, Guardian,
    GuardianBox, Invitation,
};
use crate::text::eq_str;
use vstd::pervasive::arbitrary;

verus! {

/// Two boxes agree on everything a store keeps as given: all fields but the
/// update time and the version, which a store may set on update.
pub open spec fn same_content(a: BoxView, b: BoxView) -> bool {
    &&& a.id == b.id
    &&& a.name == b.name
    &&& a.description == b.description
    &&& a.is_locked == b.is_locked
    &&& a.created_at == b.created_at
    &&& a.owner_id == b.owner_id
    &&& a.owner_name == b.owner_name
    &&& a.documents == b.documents
    &&& a.guardians == b.guardians
    &&& a.unlock_instructions == b.unlock_instructions
    &&& a.unlock_request == b.unlock_request
}

/// What a read gives back of a write: once a record is stored under a key,
/// reading the key gives that record and every other key reads as before;
/// once a key is removed it reads as missing, and every other key as before.
pub proof fn lemma_read_after_write<V>(m: Map<Seq<char>, V>, key: Seq<char>, v: V, other: Seq<char>)
    ensures
        m.insert(key, v).contains_key(key) && m.insert(key, v)[key] == v,
        !m.remove(key).contains_key(key),
        other != key ==> (m.insert(key, v).contains_key(other) == m.contains_key(other) && (
        m.contains_key(other) ==> m.insert(key, v)[other] == m[other])),
        other != key ==> (m.remove(key).contains_key(other) == m.contains_key(other) && (
        m.contains_key(other) ==> m.remove(key)[other] == m[other])),
{
}

/// Storage of invitations, keyed by invitation id.
pub trait InvitationStore {
    /// The invitations held, by id. A store that keeps no model of what it
    /// holds (the DynamoDB store, implemented outside this library) keeps
    /// this unspecified default: the contracts below, stated over it, are
    /// then neither proved nor met by that store, and what the verified
    /// functions promise holds for stores that do keep a model.
    open spec fn invitations(&self) -> Map<Seq<char>, Invitation> {
        arbitrary()
    }

    /// The store's internal consistency.
    open spec fn inv(&self) -> bool {
        true
    }

    /// The store fails only for the reasons its contract names; a store
    /// that may fail for other reasons (a remote database) is not.
    open spec fn reliable(&self) -> bool {
        false
    }

    /// A lookup of the invite code `code` reaches a held invitation with
    /// that code, and checks nothing else of it (such as its expiry). A
    /// store that cannot say so keeps the default: nothing is known.
    open spec fn finds_code(&self, code: Seq<char>) -> bool {
        false
    }

    /// Stores a new invitation. A store may fill in an empty creation or
    /// expiry time.
    fn create_invitation(&mut self, invitation: Invitation) -> (r: Result<Invitation, StoreError>)
        requires
            old(self).inv(),
        ensures
            final(self).inv(),
            final(self).reliable() == old(self).reliable(),
            old(self).reliable() ==> r is Ok,
            match r {
                Ok(saved) => {
                    &&& saved.id == invitation.id
                    &&& saved.invite_code == invitation.invite_code
                    &&& saved.invited_name == invitation.invited_name
                    &&& saved.box_id == invitation.box_id
                    &&& saved.opened == invitation.opened
                    &&& saved.linked_user_id == invitation.linked_user_id
                    &&& saved.creator_id == invitation.creator_id
                    &&& invitation.created_at@.len() > 0 ==> saved.created_at
                        == invitation.created_at
                    &&& invitation.expires_at@.len() > 0 ==> saved.expires_at
                        == invitation.expires_at
                    &&& final(self).invitations() == old(self).invitations().insert(
                        invitation.id@,
                        saved,
                    )
                },
                Err(_) => final(self).invitations() == old(self).invitations(),
            },
    ;

    /// The invitation with the given id.
    fn get_invitation(&self, id: &str) -> (r: Result<Invitation, StoreError>)
        requires
            self.inv(),
        ensures
            r matches Ok(i) ==> self.invitations().contains_key(id@) && i
                == self.invitations()[id@],
            !self.invitations().contains_key(id@) ==> r is Err,
            r matches Err(StoreError::NotFound(_)) ==> !self.invitations().contains_key(id@),
    ;

    /// The invitation with the given invite code.
    fn get_invitation_by_code(&self, invite_code: &str) -> (r: Result<Invitation, StoreError>)
        requires
            self.inv(),
        ensures
            r matches Ok(i) ==> self.invitations().contains_key(i.id@) && i
                == self.invitations()[i.id@] && i.invite_code@ == invite_code@,
            self.reliable() && self.finds_code(invite_code@) ==> r is Ok,
    ;

    /// Replaces an invitation.
    fn update_invitation(&mut self, invitation: Invitation) -> (r: Result<Invitation, StoreError>)
        requires
            old(self).inv(),
        ensures
            final(self).inv(),
            final(self).reliable() == old(self).reliable(),
            old(self).reliable() ==> r is Ok,
            match r {
                Ok(saved) => saved == invitation && final(self).invitations() == old(
                    self,
                ).invitations().insert(invitation.id@, invitation),
                Err(_) => final(self).invitations() == old(self).invitations(),
            },
    ;

    /// Removes an invitation.
    fn delete_invitation(&mut self, id: &str) -> (r: Result<(), StoreError>)
        requires
            old(self).inv(),
        ensures
            final(self).inv(),
            final(self).reliable() == old(self).reliable(),
            match r {
                Ok(_) => final(self).invitations() == old(self).invitations().remove(id@),
                Err(_) => final(self).invitations() == old(self).invitations(),
            },
    ;

    /// The invitations for a box.
    fn get_invitations_by_box_id(&self, box_id: &str) -> (r: Result<Vec<Invitation>, StoreError>)
        requires
            self.inv(),
        ensures
            self.reliable() ==> r is Ok,
            r matches Ok(v) ==> forall|i: int|
                0 <= i < v@.len() ==> {
                    &&& self.invitations().contains_key(#[trigger] v@[i].id@)
                    &&& self.invitations()[v@[i].id@] == v@[i]
                    &&& v@[i].box_id@ == box_id@
                },
    ;

    /// The invitations a user created.
    fn get_invitations_by_creator_id(&self, creator_id: &str) -> (r: Result<
        Vec<Invitation>,
        StoreError,
    >)
        requires
            self.inv(),
        ensures
            self.reliable() ==> r is Ok,
            r matches Ok(v) ==> forall|i: int|
                0 <= i < v@.len() ==> {
                    &&& self.invitations().contains_key(#[trigger] v@[i].id@)
                    &&& self.invitations()[v@[i].id@] == v@[i]
                    &&& v@[i].creator_id@ == creator_id@
                },
            r matches Ok(v) ==> forall|id: Seq<char>|
                #[trigger] self.invitations().contains_key(id) && self.invitations()[id].creator_id@
                    == creator_id@ ==> exists|i: int| 0 <= i < v@.len() && v@[i].id@ == id,
    ;
}

/// Storage of boxes, keyed by box id.
pub trait BoxStore {
    /// The boxes held, by id. A store that keeps no model of what it holds
    /// (the DynamoDB store, implemented outside this library) keeps this
    /// unspecified default: the contracts below, stated over it, are then
    /// neither proved nor met by that store, and what the verified functions
    /// promise holds for stores that do keep a model.
    open spec fn boxes(&self) -> Map<Seq<char>, BoxView> {
        arbitrary()
    }

    /// The store's internal consistency.
    open spec fn inv(&self) -> bool {
        true
    }

    /// The store fails only for the reasons its contract names; a store
    /// that may fail for other reasons (a remote database) is not.
    open spec fn reliable(&self) -> bool {
        false
    }

    /// Stores a new box.
    fn create_box(&mut self, box_record: BoxRecord) -> (r: Result<BoxRecord, StoreError>)
        requires
            old(self).inv(),
        ensures
            final(self).inv(),
            final(self).reliable() == old(self).reliable(),
            old(self).reliable() ==> r is Ok,
            match r {
                Ok(b) => b@ == box_record@ && final(self).boxes() == old(self).boxes().insert(
                    box_record.id@,
                    box_record@,
                ),
                Err(_) => final(self).boxes() == old(self).boxes(),
            },
    ;

    /// The box with the given id.
    fn get_box(&self, id: &str) -> (r: Result<BoxRecord, StoreError>)
        requires
            self.inv(),
        ensures
            r matches Ok(b) ==> self.boxes().contains_key(id@) && b@ == self.boxes()[id@] && b.id@
                == id@,
            !self.boxes().contains_key(id@) ==> r matches Err(StoreError::NotFound(_)),
            self.reliable() && self.boxes().contains_key(id@) ==> r is Ok,
    ;

    /// The boxes a user owns.
    fn get_boxes_by_owner(&self, owner_id: &str) -> (r: Result<Vec<BoxRecord>, StoreError>)
        requires
            self.inv(),
        ensures
            self.reliable() ==> r is Ok,
            r matches Ok(v) ==> forall|i: int|
                0 <= i < v@.len() ==> self.boxes().contains_key(#[trigger] v@[i].id@)
                    && self.boxes()[v@[i].id@] == v@[i]@,
            r matches Ok(v) ==> forall|id: Seq<char>|
                #[trigger] self.boxes().contains_key(id) && self.boxes()[id].owner_id@ == owner_id@
                    ==> exists|i: int| 0 <= i < v@.len() && v@[i].id@ == id,
    ;

    /// The boxes of which the user is a guardian who has not rejected them.
    fn get_boxes_by_guardian_id(&self, guardian_id: &str) -> (r: Result<
        Vec<BoxRecord>,
        StoreError,
    >)
        requires
            self.inv(),
        ensures
            self.reliable() ==> r is Ok,
            r matches Ok(v) ==> forall|i: int|
                0 <= i < v@.len() ==> {
                    &&& self.boxes().contains_key(#[trigger] v@[i].id@)
                    &&& self.boxes()[v@[i].id@] == v@[i]@
                    &&& has_active_guardian(v@[i], guardian_id@)
                },
            r matches Ok(v) ==> forall|id: Seq<char>|
                #[trigger] self.boxes().contains_key(id) && has_active_guardian_in(
                    self.boxes()[id].guardians,
                    guardian_id@,
                ) ==> exists|i: int| 0 <= i < v@.len() && v@[i].id@ == id,
            r matches Ok(v) ==> forall|a: int, b: int|
                #![trigger v@[a], v@[b]]
                0 <= a < b < v@.len() ==> v@[a].id@ != v@[b].id@,
    ;

    /// Replaces a box. A store may set the update time and the version.
    fn update_box(&mut self, box_record: BoxRecord) -> (r: Result<BoxRecord, StoreError>)
        requires
            old(self).inv(),
        ensures
            final(self).inv(),
            final(self).reliable() == old(self).reliable(),
            old(self).reliable() && old(self).boxes().contains_key(box_record.id@) && old(
                self,
            ).boxes()[box_record.id@].version == box_record.version ==> r is Ok,
            match r {
                Ok(b) => same_content(b@, box_record@) && final(self).boxes() == old(
                    self,
                ).boxes().insert(box_record.id@, b@),
                Err(_) => final(self).boxes() == old(self).boxes(),
            },
    ;

    /// Removes a box.
    fn delete_box(&mut self, id: &str) -> (r: Result<(), StoreError>)
        requires
            old(self).inv(),
        ensures
            final(self).inv(),
            final(self).reliable() == old(self).reliable(),
            old(self).reliable() && old(self).boxes().contains_key(id@) ==> r is Ok,
            match r {
                Ok(_) => final(self).boxes() == old(self).boxes().remove(id@),
                Err(_) => final(self).boxes() == old(self).boxes(),
            },
    ;
}

/// Guardian `g` is user `user` and leads the box.
pub open spec fn is_lead_guardian(g: Guardian, user: Seq<char>) -> bool {
    g.id@ == user && g.lead_guardian
}

/// User `user` is a lead guardian of the box.
pub open spec fn has_lead_guardian(guardians: Seq<Guardian>, user: Seq<char>) -> bool {
    exists|i: int| 0 <= i < guardians.len() && is_lead_guardian(#[trigger] guardians[i], user)
}

/// The position of the first guardian that is `user` and has not rejected
/// the box.
pub open spec fn first_active_guardian(guardians: Seq<Guardian>, user: Seq<char>) -> int {
    choose|i: int|
        0 <= i < guardians.len() && is_active_guardian(guardians[i], user) && forall|j: int|
            0 <= j < i ==> !is_active_guardian(#[trigger] guardians[j], user)
}

/// Whether user `user` leads the box.
pub fn guardians_have_lead(guardians: &Vec<Guardian>, user: &str) -> (r: bool)
    ensures
        r == has_lead_guardian(guardians@, user@),
{
    let mut i: usize = 0;
    while i < guardians.len()
        invariant
            i <= guardians@.len(),
            forall|j: int| 0 <= j < i ==> !is_lead_guardian(#[trigger] guardians@[j], user@),
        decreases guardians@.len() - i,
    {
        if guardians[i].lead_guardian && eq_str(&guardians[i].id, user) {
            assert(is_lead_guardian(guardians@[i as int], user@));
            return true;
        }
        i = i + 1;
    }
    false
}

/// `gb` is the view of box `b` that guardian `user` is given.
pub open spec fn is_guardian_view(gb: GuardianBox, b: BoxView, user: Seq<char>) -> bool {
    let g = b.guardians[first_active_guardian(b.guardians, user)];
    &&& gb.id == b.id
    &&& gb.name == b.name
    &&& gb.description == b.description
    &&& gb.is_locked == b.is_locked
    &&& gb.created_at == b.created_at
    &&& gb.updated_at == b.updated_at
    &&& gb.owner_id == b.owner_id
    &&& gb.owner_name == b.owner_name
    &&& gb.unlock_instructions == b.unlock_instructions
    &&& unlock_view(gb.unlock_request) == b.unlock_request
    &&& gb.pending_guardian_approval == Some(g.status@ == "pending"@)
    &&& gb.guardians_count == b.guardians.len()
    &&& gb.is_lead_guardian == has_lead_guardian(b.guardians, user)
    &&& gb.documents@ == b.documents
    &&& gb.guardians@ == b.guardians
}

/// A guardian's view of a box shows the box as it is: its id, name,
/// description, lock state, the owner's unlock instructions, its documents,
/// guardians and unlock request.
pub proof fn lemma_guardian_view_shows_box(gb: GuardianBox, b: BoxView, user: Seq<char>)
    requires
        is_guardian_view(gb, b, user),
    ensures
        gb.id == b.id,
        gb.name == b.name,
        gb.description == b.description,
        gb.is_locked == b.is_locked,
        gb.unlock_instructions == b.unlock_instructions,
        gb.documents@ == b.documents,
        gb.guardians@ == b.guardians,
        unlock_view(gb.unlock_request) == b.unlock_request,
        gb.guardians_count == b.guardians.len(),
{
}

/// A guardian's view of a box, if `user_id` is a guardian of it who has not
/// rejected it. The approval is pending while that guardian's status is
/// "pending".
pub fn convert_to_guardian_box(box_rec: &BoxRecord, user_id: &str) -> (r: Option<GuardianBox>)
    ensures
        r is Some <==> has_active_guardian(*box_rec, user_id@),
        r matches Some(gb) ==> is_guardian_view(gb, box_rec@, user_id@),
        r matches Some(gb) ==> {
            &&& gb.id == box_rec.id
            &&& gb.name == box_rec.name
            &&& gb.description == box_rec.description
            &&& gb.is_locked == box_rec.is_locked
            &&& gb.unlock_instructions == box_rec.unlock_instructions
            &&& gb.documents@ == box_rec.documents@
            &&& gb.guardians@ == box_rec.guardians@
            &&& unlock_view(gb.unlock_request) == box_rec@.unlock_request
        },
{
    match find_active_guardian(&box_rec.guardians, user_id) {
        Some(i) => {
            let ghost gs = box_rec.guardians@;
            assert(is_active_guardian(gs[i as int], user_id@));
            let ghost k = first_active_guardian(gs, user_id@);
            assert(0 <= k < gs.len() && is_active_guardian(gs[k], user_id@) && forall|j: int|
                0 <= j < k ==> !is_active_guardian(#[trigger] gs[j], user_id@));
            assert(k == i) by {
                if k < i {
                    assert(!is_active_guardian(gs[k], user_id@));
                } else if k > i {
                    assert(!is_active_guardian(gs[i as int], user_id@));
                }
            }
            let pending = eq_str(&box_rec.guardians[i].status, "pending");
            let is_lead = guardians_have_lead(&box_rec.guardians, user_id);
            Some(
                GuardianBox {
                    id: box_rec.id.clone(),
                    name: box_rec.name.clone(),
                    description: box_rec.description.clone(),
                    is_locked: box_rec.is_locked,
                    created_at: box_rec.created_at.clone(),
                    updated_at: box_rec.updated_at.clone(),
                    owner_id: box_rec.owner_id.clone(),
                    owner_name: box_rec.owner_name.clone(),
                    unlock_instructions: box_rec.unlock_instructions.clone(),
                    unlock_request: match &box_rec.unlock_request {
                        Some(u) => Some(u.clone()),
                        None => None,
                    },
                    pending_guardian_approval: Some(pending),
                    guardians_count: box_rec.guardians.len(),
                    is_lead_guardian: is_lead,
                    documents: copy_documents(&box_rec.documents),
                    guardians: copy_guardians(&box_rec.guardians),
                },
            )
        },
        None => None,
    }
}

} // verus!
