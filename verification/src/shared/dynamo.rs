//! The decisions the DynamoDB-backed stores make about the items they read
//! and write: expiry of invitations, filtering of scans, times filled in on
//! write, and the classification of failed reads. The database calls
//! themselves stand outside the library.
use vstd::prelude::*;
use crate::shared::clock::{
    add_hours, chrono_represents, format_rfc3339, in_text_range, instant_before, is_before,
    parse_rfc3339,
    rfc3339_instant, rfc3339_text, Instant,
};
use crate::shared::error::StoreError;
use crate::shared::models::{
    box_has_active_guardian, has_active_guardian, BoxRecord, BoxView, Invitation,
};
use crate::text::{concat, concat3, eq_str, owned};

verus! {

/// How long an invitation stays valid after it is issued, in hours.
pub const INVITATION_VALIDITY_HOURS: i64 = 48;

/// The expiry instant recorded in an invitation, if its text is an RFC 3339
/// time.
pub open spec fn expiry_of(inv: Invitation) -> Option<Instant> {
    match rfc3339_instant(inv.expires_at@) {
        Some((s, n)) => Some(Instant { secs: s, nanos: n }),
        None => None,
    }
}

/// The invitation has expired at `now`: its expiry lies strictly before now.
pub open spec fn is_expired_at(inv: Invitation, now: Instant) -> bool {
    expiry_of(inv) matches Some(e) && instant_before(e, now)
}

/// The invitation, unless it has expired at `now`. An expiry that is not
/// an RFC 3339 time is an internal error.
pub fn check_invitation_expiry(invitation: Invitation, now: &Instant) -> (r: Result<
    Invitation,
    StoreError,
>)
    ensures
        match expiry_of(invitation) {
            None => r matches Err(StoreError::InternalError(m)) && m@
                == "Invalid expiration date format"@,
            Some(e) => if instant_before(e, *now) {
                r matches Err(StoreError::InvitationExpired)
            } else {
                r == Ok::<Invitation, StoreError>(invitation)
            },
        },
{
    match parse_rfc3339(invitation.expires_at.as_str()) {
        None => Err(StoreError::InternalError(owned("Invalid expiration date format"))),
        Some(expires_at) => {
            if is_before(&expires_at, now) {
                Err(StoreError::InvitationExpired)
            } else {
                Ok(invitation)
            }
        },
    }
}

/// The invitations of `s` that have not expired at `now`, in order.
pub open spec fn unexpired(s: Seq<Invitation>, now: Instant) -> Seq<Invitation>
    decreases s.len(),
{
    if s.len() == 0 {
        s
    } else if is_expired_at(s.last(), now) {
        unexpired(s.drop_last(), now)
    } else {
        unexpired(s.drop_last(), now).push(s.last())
    }
}

/// The invitations that have not expired at `now`, in order; an expiry
/// that is not an RFC 3339 time makes the whole read an internal error.
pub fn keep_unexpired(items: Vec<Invitation>, now: &Instant) -> (r: Result<
    Vec<Invitation>,
    StoreError,
>)
    ensures
        (forall|i: int| 0 <= i < items@.len() ==> (#[trigger] expiry_of(items@[i])) is Some) ==> (r
            matches Ok(v) && v@ == unexpired(items@, *now)),
        (exists|i: int| 0 <= i < items@.len() && (#[trigger] expiry_of(items@[i])) is None) ==> (r
            matches Err(StoreError::InternalError(m)) && m@ == "Invalid expiration date format"@),
{
    let mut out: Vec<Invitation> = Vec::new();
    let mut i: usize = 0;
    while i < items.len()
        invariant
            i <= items@.len(),
            forall|j: int| 0 <= j < i ==> (#[trigger] expiry_of(items@[j])) is Some,
            out@ == unexpired(items@.take(i as int), *now),
        decreases items@.len() - i,
    {
        let ghost pre = items@.take(i as int);
        assert(items@.take(i + 1).drop_last() =~= pre);
        match check_invitation_expiry(items[i].clone(), now) {
            Ok(inv) => {
                out.push(inv);
            },
            Err(StoreError::InvitationExpired) => {},
            Err(e) => {
                return Err(e);
            },
        }
        i = i + 1;
    }
    assert(items@.take(items@.len() as int) =~= items@);
    Ok(out)
}

/// The invitations of `s` created by `creator`, in order.
pub open spec fn created_by(s: Seq<Invitation>, creator: Seq<char>) -> Seq<Invitation>
    decreases s.len(),
{
    if s.len() == 0 {
        s
    } else if s.last().creator_id@ == creator {
        created_by(s.drop_last(), creator).push(s.last())
    } else {
        created_by(s.drop_last(), creator)
    }
}

/// The invitations created by `creator_id`, in order.
pub fn filter_created_by(items: &Vec<Invitation>, creator_id: &str) -> (r: Vec<Invitation>)
    ensures
        r@ == created_by(items@, creator_id@),
{
    let mut out: Vec<Invitation> = Vec::new();
    let mut i: usize = 0;
    while i < items.len()
        invariant
            i <= items@.len(),
            out@ == created_by(items@.take(i as int), creator_id@),
        decreases items@.len() - i,
    {
        assert(items@.take(i + 1).drop_last() =~= items@.take(i as int));
        if eq_str(&items[i].creator_id, creator_id) {
            out.push(items[i].clone());
        }
        i = i + 1;
    }
    assert(items@.take(items@.len() as int) =~= items@);
    out
}

/// The boxes of `s` of which `user` is a guardian who has not rejected
/// them, in order.
pub open spec fn guarded_by(s: Seq<BoxRecord>, user: Seq<char>) -> Seq<BoxView>
    decreases s.len(),
{
    if s.len() == 0 {
        Seq::empty()
    } else if has_active_guardian(s.last(), user) {
        guarded_by(s.drop_last(), user).push(s.last()@)
    } else {
        guarded_by(s.drop_last(), user)
    }
}

/// The boxes of which `guardian_id` is a guardian who has not rejected
/// them, in order: the filter of a scan of all boxes.
pub fn filter_guarded_by(items: &Vec<BoxRecord>, guardian_id: &str) -> (r: Vec<BoxRecord>)
    ensures
        r@.map_values(|b: BoxRecord| b@) == guarded_by(items@, guardian_id@),
        forall|i: int| 0 <= i < r@.len() ==> has_active_guardian(#[trigger] r@[i], guardian_id@),
{
    let mut out: Vec<BoxRecord> = Vec::new();
    let mut i: usize = 0;
    while i < items.len()
        invariant
            i <= items@.len(),
            out@.map_values(|b: BoxRecord| b@) == guarded_by(items@.take(i as int), guardian_id@),
            forall|j: int|
                0 <= j < out@.len() ==> has_active_guardian(#[trigger] out@[j], guardian_id@),
        decreases items@.len() - i,
    {
        assert(items@.take(i + 1).drop_last() =~= items@.take(i as int));
        if box_has_active_guardian(&items[i], guardian_id) {
            let ghost before = out@;
            out.push(items[i].clone());
            assert(out@.map_values(|b: BoxRecord| b@) =~= before.map_values(|b: BoxRecord| b@).push(
                items@[i as int]@,
            ));
        }
        i = i + 1;
    }
    assert(items@.take(items@.len() as int) =~= items@);
    out
}

/// The box as an update writes it: with the update time set.
pub fn with_update_time(box_record: BoxRecord, now: String) -> (r: BoxRecord)
    ensures
        r@ == (BoxView { updated_at: now, ..box_record@ }),
{
    BoxRecord { updated_at: now, ..box_record }
}

/// The invitation as creation writes it: an empty creation time becomes
/// `now`, and an empty expiry time becomes 48 hours after `now`. Times that
/// chrono cannot represent stay empty.
pub fn fill_invitation_times(invitation: Invitation, now: &Instant) -> (r: Invitation)
    ensures
        r == (Invitation { created_at: r.created_at, expires_at: r.expires_at, ..invitation }),
        invitation.created_at@.len() > 0 ==> r.created_at == invitation.created_at,
        invitation.expires_at@.len() > 0 ==> r.expires_at == invitation.expires_at,
        invitation.created_at@.len() == 0 ==> if chrono_represents(now.secs as int, now.nanos) {
            r.created_at@ == rfc3339_text(now.secs, now.nanos)
        } else {
            r.created_at == invitation.created_at
        },
        invitation.expires_at@.len() == 0 ==> if chrono_represents(
            now.secs + INVITATION_VALIDITY_HOURS * 3600,
            now.nanos,
        ) {
            r.expires_at@ == rfc3339_text(
                (now.secs + INVITATION_VALIDITY_HOURS * 3600) as i64,
                now.nanos,
            )
        } else {
            r.expires_at == invitation.expires_at
        },
{
    let mut inv = invitation;
    if inv.created_at.as_str().is_empty() {
        match format_rfc3339(now) {
            Some(s) => {
                inv.created_at = s;
            },
            None => {},
        }
    }
    if inv.expires_at.as_str().is_empty() {
        match add_hours(now, INVITATION_VALIDITY_HOURS) {
            Some(later) => {
                match format_rfc3339(&later) {
                    Some(s) => {
                        inv.expires_at = s;
                    },
                    None => {},
                }
            },
            None => {},
        }
    }
    inv
}

/// The error for a failed read of a box: a missing table is reported as the
/// box not being found; every other failure is an internal error with the
/// database's message.
pub fn map_get_dynamo_error(resource_not_found: bool, err: &str, id: &str) -> (r: StoreError)
    ensures
        resource_not_found ==> (r matches StoreError::NotFound(m) && m@ == "Box not found: "@
            + id@),
        !resource_not_found ==> (r matches StoreError::InternalError(m) && m@
            == "DynamoDB get_item error: "@ + err@),
{
    if resource_not_found {
        StoreError::NotFound(concat("Box not found: ", id))
    } else {
        StoreError::InternalError(concat("DynamoDB get_item error: ", err))
    }
}

/// The error for a failed delete, query or scan: an internal error naming
/// the operation, with the database's message.
pub fn map_operation_error(operation: &str, err: &str) -> (r: StoreError)
    ensures
        r matches StoreError::InternalError(m) && m@ == "DynamoDB "@ + operation@ + " error: "@
            + err@,
{
    StoreError::InternalError(concat3("DynamoDB ", operation, crate::text::concat(" error: ", err).as_str()))
}

} // verus!
