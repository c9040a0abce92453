//! What guardians do in the single-service API, on the list of boxes the
//! service holds: see the boxes they guard, request an unlock (lead
//! guardians), and approve or reject an unlock request.
use vstd::prelude::*;
use crate::box_service::handlers::guardian_handlers::{
    already_responded, answered, has_responded, record_unlock_answer,
};
use crate::keyed::{any_satisfies, first_satisfying, lemma_first_satisfying};
use crate::legacy::error::AppError;
use crate::legacy::models::{
    BoxRecord, BoxView, GuardianBox, GuardianResponseRequest, LeadGuardianUpdateRequest,
};
use crate::legacy::store::{convert_to_guardian_box, has_user, is_active, is_guardian_view, is_user};
use crate::shared::ids::new_uuid;
use crate::shared::models::{now_str, UnlockRequest};
use crate::text::{eq_str, owned};

verus! {

/// The views of a list of boxes.
pub open spec fn views(s: Seq<BoxRecord>) -> Seq<BoxView> {
    s.map_values(|b: BoxRecord| b@)
}

/// Box `b` has id `id`.
pub open spec fn has_id(id: Seq<char>) -> spec_fn(BoxRecord) -> bool {
    |b: BoxRecord| b.id@ == id
}

/// The boxes of `s` that `user` guards and has not rejected, in order.
pub open spec fn guarded(s: Seq<BoxRecord>, user: Seq<char>) -> Seq<BoxView>
    decreases s.len(),
{
    if s.len() == 0 {
        Seq::empty()
    } else if any_satisfies(s.last()@.guardians, is_active(user)) {
        guarded(s.drop_last(), user).push(s.last()@)
    } else {
        guarded(s.drop_last(), user)
    }
}

/// The position of the first box with the id.
fn position_of(boxes: &Vec<BoxRecord>, id: &str) -> (r: Option<usize>)
    ensures
        match r {
            Some(i) => any_satisfies(boxes@, has_id(id@)) && i == first_satisfying(
                boxes@,
                has_id(id@),
            ) && i < boxes@.len(),
            None => !any_satisfies(boxes@, has_id(id@)),
        },
{
    let mut i: usize = 0;
    while i < boxes.len()
        invariant
            i <= boxes@.len(),
            forall|j: int| 0 <= j < i ==> !(#[trigger] (has_id(id@))(boxes@[j])),
        decreases boxes@.len() - i,
    {
        if eq_str(&boxes[i].id, id) {
            assert((has_id(id@))(boxes@[i as int]));
            proof {
                let k = lemma_first_satisfying(boxes@, has_id(id@));
                assert(k == i) by {
                    if k < i {
                    } else if k > i {
                    }
                }
            }
            return Some(i);
        }
        i = i + 1;
    }
    None
}

/// GET /guardianBoxes: the boxes the user guards and has not rejected, as
/// the user sees them.
pub fn get_guardian_boxes(boxes: &Vec<BoxRecord>, user_id: &str) -> (r: Vec<GuardianBox>)
    ensures
        r@.len() == guarded(boxes@, user_id@).len(),
        forall|i: int|
            0 <= i < r@.len() ==> is_guardian_view(
                #[trigger] r@[i],
                guarded(boxes@, user_id@)[i],
                user_id@,
            ),
{
    let mut out: Vec<GuardianBox> = Vec::new();
    let mut i: usize = 0;
    while i < boxes.len()
        invariant
            i <= boxes@.len(),
            out@.len() == guarded(boxes@.take(i as int), user_id@).len(),
            forall|j: int|
                0 <= j < out@.len() ==> is_guardian_view(
                    #[trigger] out@[j],
                    guarded(boxes@.take(i as int), user_id@)[j],
                    user_id@,
                ),
        decreases boxes@.len() - i,
    {
        let ghost pre = boxes@.take(i as int);
        let ghost post = boxes@.take(i + 1);
        assert(post.drop_last() =~= pre);
        assert(post.last() == boxes@[i as int]);
        match convert_to_guardian_box(&boxes[i], user_id) {
            Some(gb) => {
                out.push(gb);
            },
            None => {},
        }
        i = i + 1;
    }
    assert(boxes@.take(boxes@.len() as int) =~= boxes@);
    out
}

/// GET /guardianBoxes/:id: the box as the user sees it, if it exists and the
/// user guards it and has not rejected it.
pub fn get_guardian_box(boxes: &Vec<BoxRecord>, id: &str, user_id: &str) -> (r: Result<
    GuardianBox,
    AppError,
>)
    ensures
        match r {
            Ok(gb) => {
                let b = boxes@[first_satisfying(boxes@, has_id(id@))]@;
                &&& any_satisfies(boxes@, has_id(id@))
                &&& is_guardian_view(gb, b, user_id@)
            },
            Err(e) => {
                &&& e matches AppError::Unauthorized(m) && m@ == "Unauthorized or Box not found"@
                &&& any_satisfies(boxes@, has_id(id@)) ==> !any_satisfies(
                    boxes@[first_satisfying(boxes@, has_id(id@))]@.guardians,
                    is_active(user_id@),
                )
            },
        },
{
    match position_of(boxes, id) {
        Some(i) => match convert_to_guardian_box(&boxes[i], user_id) {
            Some(gb) => Ok(gb),
            None => Err(AppError::Unauthorized(owned("Unauthorized or Box not found"))),
        },
        None => Err(AppError::Unauthorized(owned("Unauthorized or Box not found"))),
    }
}

/// Box `nb` is box `b` with a fresh pending unlock request by `user` with
/// `message`, and a new update time.
pub open spec fn unlock_requested(b: BoxView, nb: BoxView, user: Seq<char>, message: String) -> bool {
    &&& nb == (BoxView {
        unlock_request: nb.unlock_request,
        updated_at: nb.updated_at,
        ..b
    })
    &&& nb.unlock_request matches Some(u) && {
        &&& u.id@.len() == 36
        &&& u.status@ == "pending"@
        &&& u.message == Some(message)
        &&& u.initiated_by matches Some(s) && s@ == user
        &&& u.approved_by.len() == 0
        &&& u.rejected_by.len() == 0
    }
}

/// PATCH /boxes/guardian/:id/request: a lead guardian who has not rejected
/// the box starts an unlock request with a message; the box records it.
pub fn request_unlock(
    boxes: &mut Vec<BoxRecord>,
    box_id: &str,
    user_id: &str,
    payload: LeadGuardianUpdateRequest,
) -> (r: Result<GuardianBox, AppError>)
    ensures
        match r {
            Ok(gb) => {
                let i = first_satisfying(old(boxes)@, has_id(box_id@));
                let b = old(boxes)@[i]@;
                &&& any_satisfies(old(boxes)@, has_id(box_id@))
                &&& any_satisfies(b.guardians, is_active(user_id@))
                &&& any_satisfies(b.lead_guardians, is_user(user_id@))
                &&& final(boxes)@.len() == old(boxes)@.len()
                &&& forall|j: int|
                    0 <= j < old(boxes)@.len() && j != i ==> #[trigger] final(boxes)@[j]@ == old(
                        boxes,
                    )@[j]@
                &&& unlock_requested(b, final(boxes)@[i]@, user_id@, payload.message)
                &&& is_guardian_view(gb, final(boxes)@[i]@, user_id@)
            },
            Err(e) => {
                &&& views(final(boxes)@) == views(old(boxes)@)
                &&& match e {
                    AppError::NotFound(m) => m@ == "Box not found"@ && !any_satisfies(
                        old(boxes)@,
                        has_id(box_id@),
                    ),
                    AppError::Unauthorized(m) => {
                        &&& m@ == "Not a guardian for this box"@
                        &&& any_satisfies(old(boxes)@, has_id(box_id@))
                        &&& !any_satisfies(
                            old(boxes)@[first_satisfying(old(boxes)@, has_id(box_id@))]@.guardians,
                            is_active(user_id@),
                        )
                    },
                    AppError::BadRequest(m) => {
                        let b = old(boxes)@[first_satisfying(old(boxes)@, has_id(box_id@))]@;
                        &&& m@ == "User is not a lead guardian for this box"@
                        &&& any_satisfies(old(boxes)@, has_id(box_id@))
                        &&& any_satisfies(b.guardians, is_active(user_id@))
                        &&& !any_satisfies(b.lead_guardians, is_user(user_id@))
                    },
                    AppError::InternalServerError(_) => false,
                }
            },
        },
{
    let i = match position_of(boxes, box_id) {
        Some(i) => i,
        None => {
            return Err(AppError::NotFound(owned("Box not found")));
        },
    };
    let mut box_record = boxes[i].clone();
    let ghost b = box_record@;
    if convert_to_guardian_box(&box_record, user_id).is_none() {
        return Err(AppError::Unauthorized(owned("Not a guardian for this box")));
    }
    if !has_user(&box_record.lead_guardians, user_id) {
        return Err(AppError::BadRequest(owned("User is not a lead guardian for this box")));
    }
    let new_unlock = UnlockRequest {
        id: new_uuid(),
        requested_at: now_str(),
        status: owned("pending"),
        message: Some(payload.message),
        initiated_by: Some(owned(user_id)),
        approved_by: Vec::new(),
        rejected_by: Vec::new(),
    };
    box_record.unlock_request = Some(new_unlock);
    box_record.updated_at = now_str();
    let gb = convert_to_guardian_box(&box_record, user_id);
    let ghost nb = box_record@;
    boxes.set(i, box_record);
    match gb {
        Some(gb) => {
            assert(unlock_requested(b, nb, user_id@, payload.message));
            Ok(gb)
        },
        None => {
            assert(false);
            Err(AppError::InternalServerError(owned("Failed to render guardian box")))
        },
    }
}

/// PATCH /boxes/guardian/:id/respond: a guardian who has not rejected the
/// box approves or rejects its unlock request, once; an answer that changes
/// nothing is refused.
pub fn respond_to_unlock_request(
    boxes: &mut Vec<BoxRecord>,
    box_id: &str,
    user_id: &String,
    payload: GuardianResponseRequest,
) -> (r: Result<GuardianBox, AppError>)
    ensures
        match r {
            Ok(gb) => {
                let i = first_satisfying(old(boxes)@, has_id(box_id@));
                let b = old(boxes)@[i]@;
                let nb = final(boxes)@[i]@;
                &&& any_satisfies(old(boxes)@, has_id(box_id@))
                &&& any_satisfies(b.guardians, is_active(user_id@))
                &&& final(boxes)@.len() == old(boxes)@.len()
                &&& forall|j: int|
                    0 <= j < old(boxes)@.len() && j != i ==> #[trigger] final(boxes)@[j]@ == old(
                        boxes,
                    )@[j]@
                &&& b.unlock_request matches Some(u) && !has_responded(u, user_id@) && answered(
                    u,
                    *user_id,
                    payload.approve,
                    payload.reject,
                ) == nb.unlock_request
                &&& nb == (BoxView {
                    unlock_request: nb.unlock_request,
                    updated_at: nb.updated_at,
                    ..b
                })
                &&& is_guardian_view(gb, nb, user_id@)
            },
            Err(e) => {
                &&& views(final(boxes)@) == views(old(boxes)@)
                &&& match e {
                    AppError::NotFound(m) => m@ == "Box not found"@ && !any_satisfies(
                        old(boxes)@,
                        has_id(box_id@),
                    ),
                    AppError::Unauthorized(m) => {
                        &&& m@ == "Not a guardian for this box"@
                        &&& any_satisfies(old(boxes)@, has_id(box_id@))
                        &&& !any_satisfies(
                            old(boxes)@[first_satisfying(old(boxes)@, has_id(box_id@))]@.guardians,
                            is_active(user_id@),
                        )
                    },
                    AppError::BadRequest(m) => {
                        let b = old(boxes)@[first_satisfying(old(boxes)@, has_id(box_id@))]@;
                        &&& any_satisfies(old(boxes)@, has_id(box_id@))
                        &&& any_satisfies(b.guardians, is_active(user_id@))
                        &&& match b.unlock_request {
                            None => m@ == "No unlock request exists to update"@,
                            Some(u) => if has_responded(u, user_id@) {
                                m@ == "Guardian has already responded to this unlock request"@
                            } else {
                                m@ == "No valid update field provided"@ && answered(
                                    u,
                                    *user_id,
                                    payload.approve,
                                    payload.reject,
                                ) is None
                            },
                        }
                    },
                    AppError::InternalServerError(_) => false,
                }
            },
        },
{
    let i = match position_of(boxes, box_id) {
        Some(i) => i,
        None => {
            return Err(AppError::NotFound(owned("Box not found")));
        },
    };
    let mut box_record = boxes[i].clone();
    let ghost b = box_record@;
    if convert_to_guardian_box(&box_record, user_id.as_str()).is_none() {
        return Err(AppError::Unauthorized(owned("Not a guardian for this box")));
    }
    let unlock = match box_record.unlock_request {
        Some(u) => u,
        None => {
            return Err(AppError::BadRequest(owned("No unlock request exists to update")));
        },
    };
    if already_responded(&unlock, user_id.as_str()) {
        return Err(
            AppError::BadRequest(owned("Guardian has already responded to this unlock request")),
        );
    }
    let updated = match record_unlock_answer(unlock, user_id, payload.approve, payload.reject) {
        Some(u) => u,
        None => {
            return Err(AppError::BadRequest(owned("No valid update field provided")));
        },
    };
    box_record.unlock_request = Some(updated);
    box_record.updated_at = now_str();
    let gb = convert_to_guardian_box(&box_record, user_id.as_str());
    boxes.set(i, box_record);
    match gb {
        Some(gb) => Ok(gb),
        None => {
            assert(false);
            Err(AppError::InternalServerError(owned("Failed to render guardian box")))
        },
    }
}

} // verus!
