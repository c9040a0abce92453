//! Accepting an invitation: the first guardian entry of the invitation is
//! given to the accepting user, with status "accepted".
use vstd::prelude::*;
use crate::keyed::{any_satisfies, first_satisfying};
use crate::shared::error::{store_error_message, StoreError};
use crate::shared::models::events::InvitationEvent;
use crate::shared::models::{
    find_guardian_by_invitation, invited_by, now_str, BoxRecord, BoxView, Guardian,
};
use crate::shared::store::{same_content, BoxStore};
use crate::text::{eq_str, owned};

verus! {

/// The kind of error processing an event fails with.
#[derive(Debug)]
pub enum HandlerError {
    /// The event lacks data it needs.
    InvalidData(String),
    /// The box could not be read.
    NotFound(String),
    /// The box could not be written.
    Other(String),
}

/// Guardian `ng` is guardian `g` taken over by `user`, who accepted the
/// invitation.
pub open spec fn marks_accepted(g: Guardian, ng: Guardian, user: Seq<char>) -> bool {
    &&& ng.id@ == user
    &&& ng.status@ == "accepted"@
    &&& ng.name == g.name
    &&& ng.lead_guardian == g.lead_guardian
    &&& ng.added_at == g.added_at
    &&& ng.invitation_id == g.invitation_id
}

/// The guardians `ngs` are `gs` with the one at position `i` taken over by
/// `user`, who accepted the invitation.
pub open spec fn accepted_at(gs: Seq<Guardian>, ngs: Seq<Guardian>, i: int, user: Seq<char>) -> bool {
    &&& ngs.len() == gs.len()
    &&& 0 <= i < gs.len()
    &&& forall|j: int| 0 <= j < gs.len() && j != i ==> ngs[j] == gs[j]
    &&& marks_accepted(gs[i], ngs[i], user)
}

/// Gives the first guardian entry of the invitation to the user, with
/// status "accepted", and sets the box's update time to now. Returns
/// whether there was such an entry; without one the box is unchanged.
pub fn update_guardian_in_box(box_record: &mut BoxRecord, invitation_id: &str, user_id: &str) -> (r:
    bool)
    ensures
        r == any_satisfies(old(box_record)@.guardians, invited_by(invitation_id@)),
        r ==> {
            &&& accepted_at(
                old(box_record)@.guardians,
                final(box_record)@.guardians,
                first_satisfying(old(box_record)@.guardians, invited_by(invitation_id@)),
                user_id@,
            )
            &&& final(box_record)@ == (BoxView {
                guardians: final(box_record)@.guardians,
                updated_at: final(box_record)@.updated_at,
                ..old(box_record)@
            })
        },
        !r ==> final(box_record)@ == old(box_record)@,
{
    match find_guardian_by_invitation(&box_record.guardians, invitation_id) {
        Some(i) => {
            let old_g = box_record.guardians[i].clone();
            let new_g = Guardian {
                id: owned(user_id),
                name: old_g.name,
                lead_guardian: old_g.lead_guardian,
                status: owned("accepted"),
                added_at: old_g.added_at,
                invitation_id: old_g.invitation_id,
            };
            box_record.guardians.set(i, new_g);
            box_record.updated_at = now_str();
            true
        },
        None => false,
    }
}

/// Whether an event announces an accepted invitation.
pub fn is_acceptance(event_type: &str) -> (r: bool)
    ensures
        r == (event_type@ == "invitation_accepted"@),
{
    let t = owned(event_type);
    eq_str(&t, "invitation_accepted")
}

/// Processes an invitation viewed and accepted by a user: the event must
/// name the user; the box's guardian entry for the invitation, if there is
/// one, becomes the user's and the box is saved. Store failures carry the
/// store's message.
pub fn handle_invitation_viewed<S: BoxStore>(store: &mut S, event: &InvitationEvent) -> (r:
    Result<(), HandlerError>)
    requires
        old(store).inv(),
    ensures
        final(store).inv(),
        final(store).reliable() == old(store).reliable(),
        event.user_id is None ==> (r matches Err(HandlerError::InvalidData(m)) && m@
            == "User ID is required"@),
        r is Err ==> final(store).boxes() == old(store).boxes(),
        event.user_id matches Some(u) ==> match r {
            Ok(_) => {
                let b = old(store).boxes()[event.box_id@];
                let p = invited_by(event.invitation_id@);
                &&& old(store).boxes().contains_key(event.box_id@)
                &&& if any_satisfies(b.guardians, p) {
                    exists|nb: BoxView|
                        #[trigger] same_content(nb, BoxView { guardians: nb.guardians, ..b })
                            && accepted_at(
                            b.guardians,
                            nb.guardians,
                            first_satisfying(b.guardians, p),
                            u@,
                        ) && final(store).boxes() == old(store).boxes().insert(event.box_id@, nb)
                } else {
                    final(store).boxes() == old(store).boxes()
                }
            },
            Err(HandlerError::NotFound(m)) => exists|se: StoreError|
                m@ == #[trigger] store_error_message(se),
            Err(HandlerError::Other(m)) => exists|se: StoreError|
                m@ == #[trigger] store_error_message(se),
            Err(HandlerError::InvalidData(_)) => false,
        },
        event.user_id is Some && old(store).reliable() && old(store).boxes().contains_key(
            event.box_id@,
        ) ==> r is Ok,
{
    let user_id = match &event.user_id {
        Some(u) => u,
        None => {
            return Err(HandlerError::InvalidData(owned("User ID is required")));
        },
    };
    let mut box_record = match store.get_box(event.box_id.as_str()) {
        Ok(b) => b,
        Err(e) => {
            return Err(HandlerError::NotFound(e.to_string()));
        },
    };
    let ghost b = box_record@;
    if update_guardian_in_box(&mut box_record, event.invitation_id.as_str(), user_id.as_str()) {
        match store.update_box(box_record) {
            Ok(saved) => {
                assert(same_content(saved@, BoxView { guardians: saved@.guardians, ..b }));
                Ok(())
            },
            Err(e) => Err(HandlerError::Other(e.to_string())),
        }
    } else {
        Ok(())
    }
}

/// An `invitation_created` event needs no action.
pub fn handle_invitation_created(event: &InvitationEvent) -> (r: Result<(), HandlerError>)
    ensures
        r is Ok,
{
    Ok(())
}

} // verus!
