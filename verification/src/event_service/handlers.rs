//! Handling invitation events: the guardian entry of a viewed invitation is
//! given to the user who claimed it, with a bounded number of attempts.
use vstd::prelude::*;
use crate::event_service::errors::{AppError, InvitationEventError};
use crate::keyed::{any_satisfies, first_satisfying, lemma_first_satisfying};
use crate::shared::error::{store_error_message, StoreError};
use crate::shared::models::events::InvitationEvent;
use crate::shared::models::{
    find_guardian_by_invitation, invited_by, now_str, BoxRecord, BoxView, Guardian,
};
use crate::shared::store::{same_content, BoxStore};
use crate::text::{concat, concat4, eq_str, owned};

verus! {

/// How many times an update of a guardian is attempted.
pub const MAX_RETRIES: usize = 5;

/// The kinds of invitation event the service acts on.
#[derive(Debug, PartialEq, Eq, Structural)]
pub enum EventKind {
    InvitationCreated,
    InvitationViewed,
    /// Any other event type, which is logged and skipped.
    Unknown,
}

/// The kind of an event, by its type name.
pub open spec fn kind_of(event_type: Seq<char>) -> EventKind {
    if event_type == "invitation_created"@ {
        EventKind::InvitationCreated
    } else if event_type == "invitation_viewed"@ {
        EventKind::InvitationViewed
    } else {
        EventKind::Unknown
    }
}

/// The kind of an event, by its type name.
pub fn event_kind(event_type: &str) -> (r: EventKind)
    ensures
        r == kind_of(event_type@),
{
    let t = owned(event_type);
    if eq_str(&t, "invitation_created") {
        EventKind::InvitationCreated
    } else if eq_str(&t, "invitation_viewed") {
        EventKind::InvitationViewed
    } else {
        EventKind::Unknown
    }
}

/// An `invitation_created` event needs no action.
pub fn handle_invitation_created(event: &InvitationEvent) -> (r: Result<(), AppError>)
    ensures
        r is Ok,
{
    Ok(())
}

/// An `invitation_opened` event needs no action.
pub fn handle_invitation_opened(event: &InvitationEvent) -> (r: Result<(), AppError>)
    ensures
        r is Ok,
{
    Ok(())
}

/// The user an `invitation_viewed` event is about; an event without one is
/// an internal error naming the missing field.
pub fn viewer_of(event: &InvitationEvent) -> (r: Result<String, AppError>)
    ensures
        match event.user_id {
            Some(u) => r == Ok::<String, AppError>(u),
            None => r matches Err(AppError::InternalError(m)) && m@
                == "Missing required field: user_id"@,
        },
{
    match &event.user_id {
        Some(u) => Ok(u.clone()),
        None => {
            let err = InvitationEventError::MissingField(owned("user_id"));
            let r = AppError::from_event_error(err);
            proof {
                reveal_strlit("Missing required field: ");
                reveal_strlit("user_id");
                reveal_strlit("Missing required field: user_id");
                assert("Missing required field: "@ + "user_id"@ =~= "Missing required field: user_id"@);
            }
            Err(r)
        },
    }
}

/// The outcome of a viewed event once processed: a missing guardian or box
/// is ignored, other errors are reported.
pub fn resolve_viewing(outcome: Result<(), AppError>) -> (r: Result<(), AppError>)
    ensures
        match outcome {
            Err(AppError::GuardianNotFound(_)) => r is Ok,
            Err(AppError::BoxNotFound(_)) => r is Ok,
            _ => r == outcome,
        },
{
    match outcome {
        Err(AppError::GuardianNotFound(_)) => Ok(()),
        Err(AppError::BoxNotFound(_)) => Ok(()),
        other => other,
    }
}

/// Checks before the attempts: the user must be named and the box must be
/// readable.
pub fn check_viewing<S: BoxStore>(store: &S, box_id: &str, user_id: &str) -> (r: Result<
    (),
    AppError,
>)
    requires
        store.inv(),
    ensures
        user_id@.len() == 0 ==> (r matches Err(AppError::InternalError(m)) && m@
            == "User ID cannot be empty"@),
        user_id@.len() > 0 ==> match r {
            Ok(_) => store.boxes().contains_key(box_id@),
            Err(e) => e matches AppError::BoxNotFound(m) && exists|se: StoreError|
                m@ == "Box not found: "@ + box_id@ + ", error: "@ + #[trigger] store_error_message(
                    se,
                ),
        },
        user_id@.len() > 0 && store.reliable() && store.boxes().contains_key(box_id@) ==> r is Ok,
{
    if user_id.unicode_len() == 0 {
        return Err(AppError::InternalError(owned("User ID cannot be empty")));
    }
    match store.get_box(box_id) {
        Ok(_) => Ok(()),
        Err(e) => {
            let msg = e.to_string();
            Err(AppError::BoxNotFound(concat4("Box not found: ", box_id, ", error: ", msg.as_str())))
        },
    }
}

/// Guardian `ng` is guardian `g` taken over by `user`, who has viewed the
/// invitation.
pub open spec fn marks_viewed(g: Guardian, ng: Guardian, user: Seq<char>) -> bool {
    &&& ng.id@ == user
    &&& ng.status@ == "viewed"@
    &&& ng.name == g.name
    &&& ng.lead_guardian == g.lead_guardian
    &&& ng.added_at == g.added_at
    &&& ng.invitation_id == g.invitation_id
}

/// Box `nb` is box `b` with its guardian at position `i` taken over by
/// `user`, who has viewed the invitation; nothing else changed but the
/// update time and version.
pub open spec fn viewed_in(b: BoxView, nb: BoxView, i: int, user: Seq<char>) -> bool {
    &&& same_content(nb, BoxView { guardians: nb.guardians, ..b })
    &&& nb.guardians.len() == b.guardians.len()
    &&& 0 <= i < b.guardians.len()
    &&& forall|j: int| 0 <= j < b.guardians.len() && j != i ==> nb.guardians[j] == b.guardians[j]
    &&& marks_viewed(b.guardians[i], nb.guardians[i], user)
}

/// The guardian of box `b` that joined through the invitation.
pub open spec fn invitation_guardian(b: BoxView, invitation_id: Seq<char>) -> Guardian {
    b.guardians[first_satisfying(b.guardians, invited_by(invitation_id))]
}

/// A box whose guardian for the invitation is no longer invited: a viewing
/// step leaves it as it is.
pub open spec fn leaves_alone(b: BoxView, invitation_id: Seq<char>) -> bool {
    any_satisfies(b.guardians, invited_by(invitation_id)) && invitation_guardian(
        b,
        invitation_id,
    ).status@ != "invited"@
}

/// Once the invitation's guardian is taken over by the user, the box shows
/// it as the user's and viewed: a repeated event leaves the box alone, and
/// the final check after failed attempts finds it done.
pub proof fn lemma_viewed_guardian_stays(b: BoxView, nb: BoxView, user: Seq<char>, invitation_id: Seq<char>)
    requires
        any_satisfies(b.guardians, invited_by(invitation_id)),
        viewed_in(b, nb, first_satisfying(b.guardians, invited_by(invitation_id)), user),
    ensures
        any_satisfies(nb.guardians, invited_by(invitation_id)),
        first_satisfying(nb.guardians, invited_by(invitation_id)) == first_satisfying(
            b.guardians,
            invited_by(invitation_id),
        ),
        invitation_guardian(nb, invitation_id).id@ == user,
        invitation_guardian(nb, invitation_id).status@ == "viewed"@,
        invitation_guardian(nb, invitation_id).status@ != "invited"@,
        leaves_alone(nb, invitation_id),
{
    let p = invited_by(invitation_id);
    let i = lemma_first_satisfying(b.guardians, p);
    assert(p(nb.guardians[i]));
    let k = lemma_first_satisfying(nb.guardians, p);
    assert(k == i) by {
        if k < i {
            assert(nb.guardians[k] == b.guardians[k]);
        }
    }
    reveal_strlit("viewed");
    reveal_strlit("invited");
    assert(nb.guardians[i].status@[0] == 'v');
}

/// The store error's message, as an internal error of the service.
pub open spec fn internal_store_error(se: StoreError, e: AppError) -> bool {
    e matches AppError::InternalError(m) && m@ == store_error_message(se)
}

/// One attempt, once the box has been read as `read`: a read error is an
/// internal error; a box without a guardian for the invitation is refused;
/// a guardian still invited becomes the user with status "viewed"; one in
/// any other state is left alone. Store failures are internal errors with
/// the store's message.
pub fn view_guardian<S: BoxStore>(
    store: &mut S,
    read: Result<BoxRecord, StoreError>,
    box_id: &str,
    invitation_id: &str,
    user_id: &str,
) -> (r: Result<(), AppError>)
    requires
        old(store).inv(),
        read matches Ok(b) ==> old(store).boxes().contains_key(box_id@) && b@ == old(
            store,
        ).boxes()[box_id@] && b.id@ == box_id@,
    ensures
        final(store).inv(),
        final(store).reliable() == old(store).reliable(),
        match read {
            Err(se) => final(store).boxes() == old(store).boxes() && (r matches Err(e)
                && internal_store_error(se, e)),
            Ok(b) => if !any_satisfies(b@.guardians, invited_by(invitation_id@)) {
                &&& final(store).boxes() == old(store).boxes()
                &&& r matches Err(AppError::GuardianNotFound(m))
                &&& m@ == "No guardian found with invitation ID: "@ + invitation_id@
            } else if leaves_alone(b@, invitation_id@) {
                final(store).boxes() == old(store).boxes() && r is Ok
            } else {
                &&& old(store).reliable() ==> r is Ok
                &&& match r {
                    Ok(_) => exists|nb: BoxView|
                        #[trigger] viewed_in(
                            b@,
                            nb,
                            first_satisfying(b@.guardians, invited_by(invitation_id@)),
                            user_id@,
                        ) && final(store).boxes() == old(store).boxes().insert(box_id@, nb),
                    Err(e) => final(store).boxes() == old(store).boxes() && exists|
                        se: StoreError,
                    | #[trigger] internal_store_error(se, e),
                }
            },
        },
{
    let mut box_record = match read {
        Ok(b) => b,
        Err(e) => {
            let ghost se = e;
            let msg = e.to_string();
            return Err(AppError::InternalError(msg));
        },
    };
    let ghost b = box_record@;
    let idx = match find_guardian_by_invitation(&box_record.guardians, invitation_id) {
        Some(i) => i,
        None => {
            return Err(
                AppError::GuardianNotFound(
                    concat("No guardian found with invitation ID: ", invitation_id),
                ),
            );
        },
    };
    if eq_str(&box_record.guardians[idx].status, "viewed") && eq_str(
        &box_record.guardians[idx].id,
        user_id,
    ) {
        proof {
            reveal_strlit("viewed");
            reveal_strlit("invited");
            assert(b.guardians[idx as int].status@ != "invited"@) by {
                assert(b.guardians[idx as int].status@[0] == 'v');
            }
        }
        return Ok(());
    }
    if eq_str(&box_record.guardians[idx].status, "invited") {
        let old_g = box_record.guardians[idx].clone();
        let new_g = Guardian {
            id: owned(user_id),
            name: old_g.name,
            lead_guardian: old_g.lead_guardian,
            status: owned("viewed"),
            added_at: old_g.added_at,
            invitation_id: old_g.invitation_id,
        };
        box_record.guardians.set(idx, new_g);
        box_record.updated_at = now_str();
        match store.update_box(box_record) {
            Ok(saved) => {
                assert(viewed_in(b, saved@, idx as int, user_id@));
                Ok(())
            },
            Err(e) => {
                let ghost se = e;
                let msg = e.to_string();
                let err = AppError::InternalError(msg);
                assert(internal_store_error(se, err));
                Err(err)
            },
        }
    } else {
        Ok(())
    }
}

/// One attempt to give the invitation's guardian entry to the user: a
/// guardian still invited becomes the user with status "viewed"; one in any
/// other state is left alone. A box without a guardian for the invitation
/// is an error; store failures are internal errors with the store's
/// message.
pub fn update_specific_guardian<S: BoxStore>(
    store: &mut S,
    box_id: &str,
    invitation_id: &str,
    user_id: &str,
) -> (r: Result<(), AppError>)
    requires
        old(store).inv(),
    ensures
        final(store).inv(),
        final(store).reliable() == old(store).reliable(),
        match r {
            Ok(_) => {
                let b = old(store).boxes()[box_id@];
                let i = first_satisfying(b.guardians, invited_by(invitation_id@));
                &&& old(store).boxes().contains_key(box_id@)
                &&& any_satisfies(b.guardians, invited_by(invitation_id@))
                &&& if b.guardians[i].status@ == "invited"@ {
                    exists|nb: BoxView|
                        #[trigger] viewed_in(b, nb, i, user_id@) && final(store).boxes() == old(
                            store,
                        ).boxes().insert(box_id@, nb)
                } else {
                    final(store).boxes() == old(store).boxes()
                }
            },
            Err(e) => {
                &&& final(store).boxes() == old(store).boxes()
                &&& match e {
                    AppError::GuardianNotFound(m) => {
                        &&& m@ == "No guardian found with invitation ID: "@ + invitation_id@
                        &&& old(store).boxes().contains_key(box_id@)
                        &&& !any_satisfies(
                            old(store).boxes()[box_id@].guardians,
                            invited_by(invitation_id@),
                        )
                    },
                    AppError::InternalError(m) => exists|se: StoreError|
                        m@ == #[trigger] store_error_message(se),
                    _ => false,
                }
            },
        },
        old(store).boxes().contains_key(box_id@) && leaves_alone(
            old(store).boxes()[box_id@],
            invitation_id@,
        ) ==> final(store).boxes() == old(store).boxes() && (r is Ok || r matches Err(
            AppError::InternalError(_),
        )),
        old(store).reliable() && old(store).boxes().contains_key(box_id@) && any_satisfies(
            old(store).boxes()[box_id@].guardians,
            invited_by(invitation_id@),
        ) ==> r is Ok,
        old(store).reliable() && old(store).boxes().contains_key(box_id@) && !any_satisfies(
            old(store).boxes()[box_id@].guardians,
            invited_by(invitation_id@),
        ) ==> (r matches Err(AppError::GuardianNotFound(m)) && m@
            == "No guardian found with invitation ID: "@ + invitation_id@),
{
    let read = store.get_box(box_id);
    let r = view_guardian(store, read, box_id, invitation_id, user_id);
    proof {
        if r is Err && r->Err_0 is InternalError {
            let e = r->Err_0;
            if read is Err {
                assert(internal_store_error(read->Err_0, e));
                assert(e->InternalError_0@ == store_error_message(read->Err_0));
            } else {
                let se = choose|se: StoreError| #[trigger] internal_store_error(se, e);
                assert(e->InternalError_0@ == store_error_message(se));
            }
        }
    }
    r
}

/// What follows a failed attempt.
#[derive(Debug, PartialEq, Eq, Structural)]
pub enum RetryStep {
    /// Wait this many milliseconds, then attempt again.
    RetryAfter(u64),
    /// Wait this many milliseconds, then stop attempting.
    GiveUpAfter(u64),
}

/// The wait after the `n`th failed attempt: 50 ms and 20 ms more for each
/// failure so far.
pub open spec fn backoff(n: nat) -> nat {
    50 + 20 * n
}

/// The step after a failed attempt, when `retries` attempts had failed
/// before it: the count of failures and what to do next.
pub fn after_failed_attempt(retries: usize) -> (r: (usize, RetryStep))
    requires
        retries < MAX_RETRIES,
    ensures
        r.0 == retries + 1,
        r.0 < MAX_RETRIES ==> r.1 == RetryStep::RetryAfter(backoff(r.0 as nat) as u64),
        r.0 >= MAX_RETRIES ==> r.1 == RetryStep::GiveUpAfter(backoff(r.0 as nat) as u64),
{
    let n = retries + 1;
    let delay: u64 = 50 + (n as u64) * 20;
    if n < MAX_RETRIES {
        (n, RetryStep::RetryAfter(delay))
    } else {
        (n, RetryStep::GiveUpAfter(delay))
    }
}

/// Box `b` shows the invitation's guardian as `user`, who has viewed it.
pub open spec fn shows_viewed(b: BoxView, invitation_id: Seq<char>, user: Seq<char>) -> bool {
    &&& any_satisfies(b.guardians, invited_by(invitation_id))
    &&& invitation_guardian(b, invitation_id).id@ == user
    &&& invitation_guardian(b, invitation_id).status@ == "viewed"@
}

/// The result once every attempt has failed with `err`, given what a last
/// read of the box gave back: success if the box read shows the
/// invitation's guardian as the user, having viewed it (some other process
/// did the update); `err` otherwise.
pub fn viewing_concluded(
    read: Result<BoxRecord, StoreError>,
    invitation_id: &str,
    user_id: &str,
    err: AppError,
) -> (r: Result<(), AppError>)
    ensures
        match read {
            Ok(b) => if shows_viewed(b@, invitation_id@, user_id@) {
                r is Ok
            } else {
                r == Err::<(), AppError>(err)
            },
            Err(_) => r == Err::<(), AppError>(err),
        },
{
    match read {
        Ok(box_record) => match find_guardian_by_invitation(&box_record.guardians, invitation_id) {
            Some(i) => {
                if eq_str(&box_record.guardians[i].id, user_id) && eq_str(
                    &box_record.guardians[i].status,
                    "viewed",
                ) {
                    Ok(())
                } else {
                    Err(err)
                }
            },
            None => Err(err),
        },
        Err(_) => Err(err),
    }
}

/// The result once every attempt has failed with `err`: success if the box
/// now shows the invitation's guardian as the user, having viewed it (some
/// other process did the update); `err` otherwise.
pub fn conclude_viewing<S: BoxStore>(
    store: &S,
    box_id: &str,
    invitation_id: &str,
    user_id: &str,
    err: AppError,
) -> (r: Result<(), AppError>)
    requires
        store.inv(),
    ensures
        r is Ok ==> store.boxes().contains_key(box_id@) && shows_viewed(
            store.boxes()[box_id@],
            invitation_id@,
            user_id@,
        ),
        r is Err ==> r == Err::<(), AppError>(err),
        store.reliable() && store.boxes().contains_key(box_id@) && shows_viewed(
            store.boxes()[box_id@],
            invitation_id@,
            user_id@,
        ) ==> r is Ok,
        store.reliable() && store.boxes().contains_key(box_id@) && !shows_viewed(
            store.boxes()[box_id@],
            invitation_id@,
            user_id@,
        ) ==> r == Err::<(), AppError>(err),
        !store.boxes().contains_key(box_id@) ==> r == Err::<(), AppError>(err),
{
    let read = store.get_box(box_id);
    viewing_concluded(read, invitation_id, user_id, err)
}

} // verus!
