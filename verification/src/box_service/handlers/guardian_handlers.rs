//! What guardians do: see the boxes they guard, request an unlock (lead
//! guardians), approve or reject an unlock request, and answer an
//! invitation to guard a box.
use vstd::prelude::*;
use crate::box_service::error::AppError;
use crate::box_service::models::{
    GuardianInvitationResponse, GuardianResponseRequest, LeadGuardianUpdateRequest,
};
use crate::keyed::{any_satisfies, first_satisfying, lemma_first_satisfying};
use crate::shared::ids::new_uuid;
use crate::shared::models::{
    box_has_active_guardian, has_active_guardian, has_active_guardian_in, now_str, BoxView,
    Guardian, GuardianBox, UnlockRequest, UnlockRequestView,
};
use crate::shared::store::{
    convert_to_guardian_box, guardians_have_lead, has_lead_guardian, is_guardian_view,
    same_content, BoxStore,
};
use crate::text::{eq_str, owned};

verus! {

/// Whether one of the strings holds exactly the characters `user`.
pub open spec fn lists_user(v: Seq<String>, user: Seq<char>) -> bool {
    exists|i: int| 0 <= i < v.len() && #[trigger] v[i]@ == user
}

/// Whether the list holds the user.
pub fn list_has_user(v: &Vec<String>, user: &str) -> (r: bool)
    ensures
        r == lists_user(v@, user@),
{
    let mut i: usize = 0;
    while i < v.len()
        invariant
            i <= v@.len(),
            forall|j: int| 0 <= j < i ==> #[trigger] v@[j]@ != user@,
        decreases v@.len() - i,
    {
        if eq_str(&v[i], user) {
            assert(v@[i as int]@ == user@);
            return true;
        }
        i = i + 1;
    }
    false
}

/// The unlock request after `user`'s answer: an approval adds the user to
/// the approvers, a rejection to the rejecters, unless already there.
/// `None` when the answer changes nothing.
pub open spec fn answered(
    u: UnlockRequestView,
    user: String,
    approve: Option<bool>,
    reject: Option<bool>,
) -> Option<UnlockRequestView> {
    let add_approval = approve == Some(true) && !lists_user(u.approved_by, user@);
    let add_rejection = reject == Some(true) && !lists_user(u.rejected_by, user@);
    if add_approval || add_rejection {
        Some(
            UnlockRequestView {
                approved_by: if add_approval {
                    u.approved_by.push(user)
                } else {
                    u.approved_by
                },
                rejected_by: if add_rejection {
                    u.rejected_by.push(user)
                } else {
                    u.rejected_by
                },
                ..u
            },
        )
    } else {
        None
    }
}

/// Whether `user` has already approved or rejected the unlock request.
pub open spec fn has_responded(u: UnlockRequestView, user: Seq<char>) -> bool {
    lists_user(u.approved_by, user) || lists_user(u.rejected_by, user)
}

/// Whether `user` has already approved or rejected the unlock request.
pub fn already_responded(u: &UnlockRequest, user: &str) -> (r: bool)
    ensures
        r == has_responded(u@, user@),
{
    list_has_user(&u.approved_by, user) || list_has_user(&u.rejected_by, user)
}

/// A guardian answers an unlock request once: once an answer is recorded,
/// the guardian counts as having responded, and a further answer is
/// refused.
pub proof fn lemma_guardian_answers_once(
    u: UnlockRequestView,
    user: String,
    approve: Option<bool>,
    reject: Option<bool>,
)
    requires
        answered(u, user, approve, reject) is Some,
    ensures
        has_responded(answered(u, user, approve, reject)->0, user@),
{
    let v = answered(u, user, approve, reject)->0;
    if approve == Some(true) && !lists_user(u.approved_by, user@) {
        assert(v.approved_by[v.approved_by.len() - 1]@ == user@);
    } else {
        assert(v.rejected_by[v.rejected_by.len() - 1]@ == user@);
    }
}

/// Records a guardian's answer to an unlock request; `None` when it changes
/// nothing.
pub fn record_unlock_answer(
    unlock: UnlockRequest,
    user: &String,
    approve: Option<bool>,
    reject: Option<bool>,
) -> (r: Option<UnlockRequest>)
    ensures
        match r {
            Some(u) => answered(unlock@, *user, approve, reject) == Some(u@),
            None => answered(unlock@, *user, approve, reject) is None,
        },
{
    let mut u = unlock;
    let ghost before = u@;
    let add_approval = match approve {
        Some(a) => a && !list_has_user(&u.approved_by, user.as_str()),
        None => false,
    };
    let add_rejection = match reject {
        Some(x) => x && !list_has_user(&u.rejected_by, user.as_str()),
        None => false,
    };
    if add_approval {
        u.approved_by.push(user.clone());
    }
    if add_rejection {
        u.rejected_by.push(user.clone());
    }
    if add_approval || add_rejection {
        assert(answered(before, *user, approve, reject) == Some(u@));
        Some(u)
    } else {
        None
    }
}

/// The answer to a guardian's reply to an invitation: a message, and the
/// box as the guardian now sees it when the invitation was accepted.
#[derive(Debug)]
pub struct InvitationAnswer {
    pub message: String,
    pub guardian_box: Option<GuardianBox>,
}

/// Guardian `g` is user `user` with a pending invitation.
pub open spec fn is_invited_guardian(user: Seq<char>) -> spec_fn(Guardian) -> bool {
    |g: Guardian| g.id@ == user && g.status@ == "invited"@
}

/// Box `nb` is box `b` with a fresh unlock request by `user` with `message`.
pub open spec fn unlock_requested(b: BoxView, nb: BoxView, user: Seq<char>, message: String) -> bool {
    &&& same_content(nb, BoxView { unlock_request: nb.unlock_request, ..b })
    &&& nb.unlock_request matches Some(u) && {
        &&& u.status@ == "invited"@
        &&& u.message == Some(message)
        &&& u.initiated_by matches Some(s) && s@ == user
        &&& u.approved_by.len() == 0
        &&& u.rejected_by.len() == 0
    }
}

/// The position of the first guardian with the user's pending invitation.
fn find_invited_guardian(gs: &Vec<Guardian>, user: &str) -> (r: Option<usize>)
    ensures
        match r {
            Some(i) => any_satisfies(gs@, is_invited_guardian(user@)) && i == first_satisfying(
                gs@,
                is_invited_guardian(user@),
            ) && i < gs@.len() && gs@[i as int].id@ == user@,
            None => !any_satisfies(gs@, is_invited_guardian(user@)),
        },
{
    let mut i: usize = 0;
    while i < gs.len()
        invariant
            i <= gs@.len(),
            forall|j: int| 0 <= j < i ==> !(#[trigger] (is_invited_guardian(user@))(gs@[j])),
        decreases gs@.len() - i,
    {
        if eq_str(&gs[i].id, user) && eq_str(&gs[i].status, "invited") {
            assert((is_invited_guardian(user@))(gs@[i as int]));
            proof {
                let k = lemma_first_satisfying(gs@, is_invited_guardian(user@));
                assert(k == i) by {
                    if k < i {
                    } else if k > i {
                    }
                }
            }
            return Some(i);
        }
        i = i + 1;
    }
    None
}

/// GET /boxes/guardian: the boxes the user guards and has not rejected, as
/// the user sees them. A failed read gives no boxes.
pub fn get_guardian_boxes<S: BoxStore>(store: &S, user_id: &str) -> (r: Result<
    Vec<GuardianBox>,
    AppError,
>)
    requires
        store.inv(),
    ensures
        r matches Ok(v) && forall|i: int|
            0 <= i < v@.len() ==> {
                &&& store.boxes().contains_key(#[trigger] v@[i].id@)
                &&& has_active_guardian_in(store.boxes()[v@[i].id@].guardians, user_id@)
                &&& is_guardian_view(v@[i], store.boxes()[v@[i].id@], user_id@)
            },
        store.reliable() ==> (r matches Ok(v) && forall|id: Seq<char>|
            #[trigger] store.boxes().contains_key(id) && has_active_guardian_in(
                store.boxes()[id].guardians,
                user_id@,
            ) ==> exists|i: int| 0 <= i < v@.len() && v@[i].id@ == id),
        r matches Ok(v) ==> forall|a: int, b: int|
            #![trigger v@[a], v@[b]]
            0 <= a < b < v@.len() ==> v@[a].id@ != v@[b].id@,
{
    let fetched = store.get_boxes_by_guardian_id(user_id);
    let ghost complete = fetched is Ok;
    let boxes = match fetched {
        Ok(v) => v,
        Err(_) => Vec::new(),
    };
    assert(complete ==> forall|id: Seq<char>|
        #[trigger] store.boxes().contains_key(id) && has_active_guardian_in(
            store.boxes()[id].guardians,
            user_id@,
        ) ==> exists|i: int| 0 <= i < boxes@.len() && boxes@[i].id@ == id);
    assert forall|j: int| 0 <= j < boxes@.len() implies has_active_guardian(
        #[trigger] boxes@[j],
        user_id@,
    ) by {
        assert(store.boxes().contains_key(boxes@[j].id@));
    }
    assert(forall|a: int, b: int|
        #![trigger boxes@[a], boxes@[b]]
        0 <= a < b < boxes@.len() ==> boxes@[a].id@ != boxes@[b].id@);
    let mut out: Vec<GuardianBox> = Vec::new();
    let mut i: usize = 0;
    while i < boxes.len()
        invariant
            i <= boxes@.len(),
            forall|a: int, b: int|
                #![trigger boxes@[a], boxes@[b]]
                0 <= a < b < boxes@.len() ==> boxes@[a].id@ != boxes@[b].id@,
            forall|j: int|
                0 <= j < boxes@.len() ==> store.boxes().contains_key(#[trigger] boxes@[j].id@)
                    && store.boxes()[boxes@[j].id@] == boxes@[j]@,
            forall|j: int|
                0 <= j < out@.len() ==> {
                    &&& store.boxes().contains_key(#[trigger] out@[j].id@)
                    &&& has_active_guardian_in(store.boxes()[out@[j].id@].guardians, user_id@)
                    &&& is_guardian_view(out@[j], store.boxes()[out@[j].id@], user_id@)
                },
            forall|j: int| 0 <= j < boxes@.len() ==> has_active_guardian(#[trigger] boxes@[j], user_id@),
            out@.len() == i,
            forall|j: int| 0 <= j < i ==> #[trigger] out@[j].id == boxes@[j].id,
        decreases boxes@.len() - i,
    {
        match convert_to_guardian_box(&boxes[i], user_id) {
            Some(gb) => {
                out.push(gb);
            },
            None => {},
        }
        i = i + 1;
    }
    proof {
        if complete {
            assert forall|id: Seq<char>|
                #[trigger] store.boxes().contains_key(id) && has_active_guardian_in(
                    store.boxes()[id].guardians,
                    user_id@,
                ) implies exists|i: int| 0 <= i < out@.len() && out@[i].id@ == id by {
                let k = choose|k: int| 0 <= k < boxes@.len() && boxes@[k].id@ == id;
                assert(out@[k].id == boxes@[k].id);
            }
        }
        assert forall|a: int, b: int|
            #![trigger out@[a], out@[b]]
            0 <= a < b < out@.len() implies out@[a].id@ != out@[b].id@ by {
            assert(out@[a].id == boxes@[a].id && out@[b].id == boxes@[b].id);
            assert(boxes@[a].id@ != boxes@[b].id@);
        }
    }
    Ok(out)
}

/// GET /boxes/guardian/{id}: a box the user guards and has not rejected,
/// as the user sees it.
pub fn get_guardian_box<S: BoxStore>(store: &S, id: &str, user_id: &str) -> (r: Result<
    GuardianBox,
    AppError,
>)
    requires
        store.inv(),
    ensures
        !store.boxes().contains_key(id@) ==> r matches Err(AppError::NotFound(_)),
        store.reliable() && store.boxes().contains_key(id@) && !has_active_guardian_in(
            store.boxes()[id@].guardians,
            user_id@,
        ) ==> (r matches Err(AppError::Unauthorized(m)) && m@ == "Unauthorized or Box not found"@),
        store.reliable() && store.boxes().contains_key(id@) && has_active_guardian_in(
            store.boxes()[id@].guardians,
            user_id@,
        ) ==> r is Ok,
        r matches Ok(gb) ==> store.boxes().contains_key(id@) && has_active_guardian_in(
            store.boxes()[id@].guardians,
            user_id@,
        ) && is_guardian_view(gb, store.boxes()[id@], user_id@),
{
    let box_rec = match store.get_box(id) {
        Ok(b) => b,
        Err(e) => {
            return Err(AppError::from(e));
        },
    };
    match convert_to_guardian_box(&box_rec, user_id) {
        Some(gb) => Ok(gb),
        None => Err(AppError::unauthorized(owned("Unauthorized or Box not found"))),
    }
}

/// PATCH /boxes/guardian/{id}/request: a lead guardian who has not rejected
/// the box requests that it be unlocked, with a message.
pub fn request_unlock<S: BoxStore>(
    store: &mut S,
    box_id: &str,
    user_id: &str,
    payload: LeadGuardianUpdateRequest,
) -> (r: Result<GuardianBox, AppError>)
    requires
        old(store).inv(),
    ensures
        final(store).inv(),
        !old(store).boxes().contains_key(box_id@) ==> r matches Err(AppError::NotFound(_)),
        old(store).reliable() && old(store).boxes().contains_key(box_id@) ==> {
            let gs = old(store).boxes()[box_id@].guardians;
            &&& !has_active_guardian_in(gs, user_id@) ==> (r matches Err(AppError::Unauthorized(m))
                && m@ == "Not a guardian for this box"@)
            &&& has_active_guardian_in(gs, user_id@) && !has_lead_guardian(gs, user_id@) ==> (
            r matches Err(AppError::BadRequest(m)) && m@
                == "User is not a lead guardian for this box"@)
            &&& has_active_guardian_in(gs, user_id@) && has_lead_guardian(gs, user_id@) ==> r is Ok
        },
        match r {
            Ok(gb) => {
                let b = old(store).boxes()[box_id@];
                let nb = final(store).boxes()[box_id@];
                &&& old(store).boxes().contains_key(box_id@)
                &&& has_active_guardian_in(b.guardians, user_id@)
                &&& has_lead_guardian(b.guardians, user_id@)
                &&& final(store).boxes().contains_key(box_id@)
                &&& final(store).boxes() == old(store).boxes().insert(box_id@, nb)
                &&& unlock_requested(b, nb, user_id@, payload.message)
                &&& is_guardian_view(gb, nb, user_id@)
            },
            Err(_) => final(store).boxes() == old(store).boxes(),
        },
{
    let mut box_record = match store.get_box(box_id) {
        Ok(b) => b,
        Err(e) => {
            return Err(AppError::from(e));
        },
    };
    if !box_has_active_guardian(&box_record, user_id) {
        return Err(AppError::unauthorized(owned("Not a guardian for this box")));
    }
    if !guardians_have_lead(&box_record.guardians, user_id) {
        return Err(AppError::bad_request(owned("User is not a lead guardian for this box")));
    }
    let new_unlock = UnlockRequest {
        id: new_uuid(),
        requested_at: now_str(),
        status: owned("invited"),
        message: Some(payload.message),
        initiated_by: Some(owned(user_id)),
        approved_by: Vec::new(),
        rejected_by: Vec::new(),
    };
    box_record.unlock_request = Some(new_unlock);
    box_record.updated_at = now_str();
    let updated = match store.update_box(box_record) {
        Ok(b) => b,
        Err(e) => {
            return Err(AppError::from(e));
        },
    };
    match convert_to_guardian_box(&updated, user_id) {
        Some(gb) => Ok(gb),
        None => Err(AppError::internal_server_error(owned("Failed to render guardian box"))),
    }
}

/// PATCH /boxes/guardian/{id}/respond: a guardian who has not rejected the
/// box approves or rejects its unlock request.
pub fn respond_to_unlock_request<S: BoxStore>(
    store: &mut S,
    box_id: &str,
    user_id: &str,
    payload: GuardianResponseRequest,
) -> (r: Result<GuardianBox, AppError>)
    requires
        old(store).inv(),
    ensures
        final(store).inv(),
        !old(store).boxes().contains_key(box_id@) ==> r matches Err(AppError::NotFound(_)),
        old(store).reliable() && old(store).boxes().contains_key(box_id@) ==> {
            let b = old(store).boxes()[box_id@];
            &&& !has_active_guardian_in(b.guardians, user_id@) ==> (r matches Err(
                AppError::Unauthorized(m),
            ) && m@ == "Not a guardian for this box"@)
            &&& has_active_guardian_in(b.guardians, user_id@) && b.unlock_request is None ==> (
            r matches Err(AppError::BadRequest(m)) && m@ == "No unlock request exists to update"@)
            &&& has_active_guardian_in(b.guardians, user_id@) && b.unlock_request is Some
                && has_responded(b.unlock_request->Some_0, user_id@) ==> (r matches Err(
                AppError::BadRequest(m),
            ) && m@ == "Guardian has already responded to this unlock request"@)
            &&& forall|s: String|
                s@ == user_id@ && has_active_guardian_in(b.guardians, user_id@)
                    && b.unlock_request is Some && !has_responded(
                    b.unlock_request->Some_0,
                    user_id@,
                ) ==> if answered(
                    b.unlock_request->Some_0,
                    s,
                    payload.approve,
                    payload.reject,
                ) is None {
                    r matches Err(AppError::BadRequest(m)) && m@
                        == "No valid update field provided"@
                } else {
                    r is Ok
                }
        },
        match r {
            Ok(gb) => {
                let b = old(store).boxes()[box_id@];
                let nb = final(store).boxes()[box_id@];
                &&& old(store).boxes().contains_key(box_id@)
                &&& has_active_guardian_in(b.guardians, user_id@)
                &&& final(store).boxes().contains_key(box_id@)
                &&& final(store).boxes() == old(store).boxes().insert(box_id@, nb)
                &&& b.unlock_request matches Some(u) && !has_responded(u, user_id@) && exists|
                    s: String,
                |
                    s@ == user_id@ && answered(u, s, payload.approve, payload.reject)
                        == nb.unlock_request && same_content(
                        nb,
                        BoxView { unlock_request: nb.unlock_request, ..b },
                    )
                &&& is_guardian_view(gb, nb, user_id@)
            },
            Err(_) => final(store).boxes() == old(store).boxes(),
        },
{
    let mut box_record = match store.get_box(box_id) {
        Ok(b) => b,
        Err(e) => {
            return Err(AppError::from(e));
        },
    };
    if !box_has_active_guardian(&box_record, user_id) {
        return Err(AppError::unauthorized(owned("Not a guardian for this box")));
    }
    let unlock = match box_record.unlock_request {
        Some(u) => u,
        None => {
            return Err(AppError::bad_request(owned("No unlock request exists to update")));
        },
    };
    if already_responded(&unlock, user_id) {
        return Err(
            AppError::bad_request(owned("Guardian has already responded to this unlock request")),
        );
    }
    let user = owned(user_id);
    let ghost old_u = unlock@;
    let answered_request = match record_unlock_answer(unlock, &user, payload.approve, payload.reject) {
        Some(u) => u,
        None => {
            proof {
                assert forall|s: String|
                    s@ == user_id@ implies answered(
                    old_u,
                    s,
                    payload.approve,
                    payload.reject,
                ) is None by {}
            }
            return Err(AppError::bad_request(owned("No valid update field provided")));
        },
    };
    box_record.unlock_request = Some(answered_request);
    box_record.updated_at = now_str();
    let updated = match store.update_box(box_record) {
        Ok(b) => b,
        Err(e) => {
            return Err(AppError::from(e));
        },
    };
    match convert_to_guardian_box(&updated, user_id) {
        Some(gb) => Ok(gb),
        None => Err(AppError::internal_server_error(owned("Failed to render guardian box"))),
    }
}

/// PATCH /boxes/guardian/{id}/invitation: the user accepts or rejects a
/// pending invitation to guard the box, which sets the status of the first
/// guardian entry with that invitation to "accepted" or "rejected".
pub fn respond_to_invitation<S: BoxStore>(
    store: &mut S,
    box_id: &str,
    user_id: &str,
    payload: GuardianInvitationResponse,
) -> (r: Result<InvitationAnswer, AppError>)
    requires
        old(store).inv(),
    ensures
        final(store).inv(),
        !old(store).boxes().contains_key(box_id@) ==> r matches Err(AppError::NotFound(_)),
        old(store).reliable() && old(store).boxes().contains_key(box_id@) ==> {
            let gs = old(store).boxes()[box_id@].guardians;
            &&& !any_satisfies(gs, is_invited_guardian(user_id@)) ==> (r matches Err(
                AppError::BadRequest(m),
            ) && m@ == "No pending invitation found for this box"@)
            &&& any_satisfies(gs, is_invited_guardian(user_id@)) ==> r is Ok
        },
        match r {
            Ok(answer) => {
                let b = old(store).boxes()[box_id@];
                let nb = final(store).boxes()[box_id@];
                let k = first_satisfying(b.guardians, is_invited_guardian(user_id@));
                &&& old(store).boxes().contains_key(box_id@)
                &&& any_satisfies(b.guardians, is_invited_guardian(user_id@))
                &&& final(store).boxes().contains_key(box_id@)
                &&& final(store).boxes() == old(store).boxes().insert(box_id@, nb)
                &&& same_content(
                    nb,
                    BoxView {
                        guardians: b.guardians.update(
                            k,
                            Guardian { status: nb.guardians[k].status, ..b.guardians[k] },
                        ),
                        ..b
                    },
                )
                &&& nb.guardians[k].status@ == if payload.accept {
                    "accepted"@
                } else {
                    "rejected"@
                }
                &&& payload.accept ==> (answer.guardian_box matches Some(gb) && is_guardian_view(
                    gb,
                    nb,
                    user_id@,
                ) && answer.message@ == "Guardian invitation accepted successfully"@)
                &&& !payload.accept ==> answer.message@
                    == "Guardian invitation rejected successfully"@ && answer.guardian_box is None
            },
            Err(_) => final(store).boxes() == old(store).boxes(),
        },
{
    let mut box_record = match store.get_box(box_id) {
        Ok(b) => b,
        Err(e) => {
            return Err(AppError::from(e));
        },
    };
    let index = match find_invited_guardian(&box_record.guardians, user_id) {
        Some(i) => i,
        None => {
            return Err(AppError::bad_request(owned("No pending invitation found for this box")));
        },
    };
    let ghost gs = box_record.guardians@;
    let status = if payload.accept {
        owned("accepted")
    } else {
        owned("rejected")
    };
    let mut g = box_record.guardians[index].clone();
    g.status = status;
    box_record.guardians.set(index, g);
    box_record.updated_at = now_str();
    let updated = match store.update_box(box_record) {
        Ok(b) => b,
        Err(e) => {
            return Err(AppError::from(e));
        },
    };
    if payload.accept {
        proof {
            reveal_strlit("accepted");
            reveal_strlit("rejected");
            assert("accepted"@[0] == 'a' && "rejected"@[0] == 'r');
            assert("accepted"@ != "rejected"@);
            assert(crate::shared::models::is_active_guardian(updated.guardians@[index as int], user_id@));
        }
        match convert_to_guardian_box(&updated, user_id) {
            Some(gb) => Ok(
                InvitationAnswer {
                    message: owned("Guardian invitation accepted successfully"),
                    guardian_box: Some(gb),
                },
            ),
            None => Err(AppError::internal_server_error(owned("Failed to render guardian box"))),
        }
    } else {
        Ok(
            InvitationAnswer {
                message: owned("Guardian invitation rejected successfully"),
                guardian_box: None,
            },
        )
    }
}

} // verus!
