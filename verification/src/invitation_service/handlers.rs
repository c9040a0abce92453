//! The invitation service's requests: issuing an invitation, claiming one by
//! its code, refreshing an unused one, and listing one's own.
use vstd::prelude::*;
use crate::invitation_service::error::{from_store_spec, map_dynamo_error, AppError};
use crate::invitation_service::models::{
    ConnectToUserRequest, CreateInvitationRequest, MessageResponse,
};
use crate::shared::clock::{
    add_hours, chrono_represents, format_rfc3339, in_text_range, instant_before, now_instant,
    rfc3339_instant,
    rfc3339_text, Instant,
};
use crate::shared::dynamo::{is_expired_at, INVITATION_VALIDITY_HOURS};
use crate::shared::error::{store_error_message, StoreError};
use crate::shared::ids::{new_uuid, random_id};
use crate::shared::models::events::InvitationEvent;
use crate::shared::models::{now_str, Invitation};
use crate::shared::store::InvitationStore;
use crate::text::{concat, concat3, eq_string, owned};

verus! {

/// The length of an invite code.
pub const CODE_LENGTH: usize = 8;

/// The message of the error for a clock reading outside the years that
/// invitation times can be written in.
pub const CLOCK_OUT_OF_RANGE: &'static str = "Clock out of range";

/// The letters invite codes are made of: the capital letters A to Z.
pub open spec fn is_code_letter(c: char) -> bool {
    'A' <= c && c <= 'Z'
}

/// An invite code: eight capital letters.
pub open spec fn is_invite_code(s: Seq<char>) -> bool {
    s.len() == CODE_LENGTH && forall|i: int| 0 <= i < s.len() ==> is_code_letter(#[trigger] s[i])
}

/// An instant from which an invitation issued now, and its expiry, can be
/// written as RFC 3339 times: chrono represents both.
pub open spec fn clock_usable(now: Instant) -> bool {
    chrono_represents(now.secs as int, now.nanos) && chrono_represents(
        now.secs + INVITATION_VALIDITY_HOURS * 3600,
        now.nanos,
    )
}

/// The expiry of an invitation issued at `now` has a four-digit year from
/// 1970 on, so that reading its text back gives the instant again.
pub open spec fn expiry_in_text_range(now: Instant) -> bool {
    in_text_range(Instant { secs: expiry_instant(now).0, nanos: now.nanos })
}

/// The expiry time of an invitation issued at `now`: 48 hours later.
pub open spec fn expiry_text(now: Instant) -> Seq<char> {
    rfc3339_text((now.secs + INVITATION_VALIDITY_HOURS * 3600) as i64, now.nanos)
}

/// The instant at which an invitation issued at `now` expires, as seconds
/// and nanoseconds.
pub open spec fn expiry_instant(now: Instant) -> (i64, u32) {
    ((now.secs + INVITATION_VALIDITY_HOURS * 3600) as i64, now.nanos)
}

/// An invitation has been used: it was opened or linked to a user.
pub open spec fn is_used(i: Invitation) -> bool {
    i.opened || i.linked_user_id is Some
}

/// The invitation once `user` has claimed it.
pub open spec fn claimed(i: Invitation, user: String) -> Invitation {
    Invitation { opened: true, linked_user_id: Some(user), ..i }
}

/// `i` is the invitation stored under its id.
pub open spec fn stored(m: Map<Seq<char>, Invitation>, i: Invitation) -> bool {
    m.contains_key(i.id@) && m[i.id@] == i
}

/// `v` lists the invitations `user` created: each is stored, and each
/// stored invitation of the user is among them.
pub open spec fn lists_created_by(m: Map<Seq<char>, Invitation>, user: Seq<char>, v: Seq<Invitation>) -> bool {
    &&& forall|i: int| 0 <= i < v.len() ==> stored(m, #[trigger] v[i]) && v[i].creator_id@ == user
    &&& forall|id: Seq<char>|
        #[trigger] m.contains_key(id) && m[id].creator_id@ == user ==> exists|i: int|
            0 <= i < v.len() && v[i].id@ == id
}

/// `inv` is the invitation issued to `invited_name` for `box_id` by
/// `creator` at `now`.
pub open spec fn issued(
    inv: Invitation,
    invited_name: String,
    box_id: String,
    creator: String,
    now: Instant,
) -> bool {
    &&& inv.id@.len() == 36
    &&& is_invite_code(inv.invite_code@)
    &&& inv.invited_name == invited_name
    &&& inv.box_id == box_id
    &&& inv.created_at@ == rfc3339_text(now.secs, now.nanos)
    &&& inv.expires_at@ == expiry_text(now)
    &&& expiry_in_text_range(now) ==> rfc3339_instant(inv.expires_at@) == Some(
        expiry_instant(now),
    )
    &&& !inv.opened
    &&& inv.linked_user_id is None
    &&& inv.creator_id == creator
}

/// The letters of invite codes, in order.
fn code_alphabet() -> (r: Vec<char>)
    ensures
        r@.len() == 26,
        forall|i: int| 0 <= i < r@.len() ==> is_code_letter(#[trigger] r@[i]),
{
    let mut v: Vec<char> = Vec::new();
    let mut c: u8 = 65;
    while c <= 90
        invariant
            65 <= c <= 91,
            v@.len() == c - 65,
            forall|i: int| 0 <= i < v@.len() ==> is_code_letter(#[trigger] v@[i]),
        decreases 91 - c,
    {
        let ch = c as char;
        assert(is_code_letter(ch)) by {
            assert('A' as u8 == 65u8);
            assert('Z' as u8 == 90u8);
        }
        v.push(ch);
        c = c + 1;
    }
    v
}

/// A fresh invite code.
fn new_invite_code() -> (r: String)
    ensures
        is_invite_code(r@),
{
    let alphabet = code_alphabet();
    let code = random_id(alphabet.as_slice(), CODE_LENGTH);
    assert forall|i: int| 0 <= i < code@.len() implies is_code_letter(#[trigger] code@[i]) by {
        let k = choose|k: int| 0 <= k < alphabet@.len() && alphabet@[k] == code@[i];
        assert(is_code_letter(alphabet@[k]));
    }
    code
}

/// The creation and expiry times of an invitation issued at `now`.
pub fn invitation_times(now: &Instant) -> (r: Option<(String, String)>)
    ensures
        clock_usable(*now) <==> r is Some,
        r matches Some(p) ==> p.0@ == rfc3339_text(now.secs, now.nanos) && p.1@ == expiry_text(
            *now,
        ) && p.0@.len() > 0 && p.1@.len() > 0,
        expiry_in_text_range(*now) ==> (r matches Some(p) ==> rfc3339_instant(p.1@) == Some(
            expiry_instant(*now),
        )),
{
    let later = match add_hours(now, INVITATION_VALIDITY_HOURS) {
        Some(t) => t,
        None => {
            return None;
        },
    };
    match (format_rfc3339(now), format_rfc3339(&later)) {
        (Some(created), Some(expires)) => Some((created, expires)),
        _ => None,
    }
}

/// The invitation issued, at `now`, to the person and box of the request by
/// `creator_id`, with the given id and code; `None` if `now` is outside the
/// years that its times can be written in.
pub fn new_invitation(
    id: String,
    invite_code: String,
    request: CreateInvitationRequest,
    creator_id: String,
    now: &Instant,
) -> (r: Option<Invitation>)
    ensures
        clock_usable(*now) <==> r is Some,
        r matches Some(inv) ==> {
            &&& inv.id == id
            &&& inv.invite_code == invite_code
            &&& inv.invited_name == request.invited_name
            &&& inv.box_id == request.box_id
            &&& inv.created_at@ == rfc3339_text(now.secs, now.nanos)
            &&& inv.expires_at@ == expiry_text(*now)
            &&& inv.created_at@.len() > 0 && inv.expires_at@.len() > 0
            &&& expiry_in_text_range(*now) ==> rfc3339_instant(inv.expires_at@) == Some(
                expiry_instant(*now),
            )
            &&& !inv.opened
            &&& inv.linked_user_id is None
            &&& inv.creator_id == creator_id
        },
{
    match invitation_times(now) {
        Some((created_at, expires_at)) => Some(
            Invitation {
                id,
                invite_code,
                invited_name: request.invited_name,
                box_id: request.box_id,
                created_at,
                expires_at,
                opened: false,
                linked_user_id: None,
                creator_id,
            },
        ),
        None => None,
    }
}

/// Issues an invitation for `user_id`: a fresh id and code, created now and
/// expiring 48 hours later, and stores it. A store failure is reported as an
/// internal error naming the operation.
pub fn create_invitation<S: InvitationStore>(
    store: &mut S,
    user_id: String,
    create_request: CreateInvitationRequest,
) -> (r: Result<Invitation, AppError>)
    requires
        old(store).inv(),
    ensures
        final(store).inv(),
        final(store).reliable() == old(store).reliable(),
        match r {
            Ok(saved) => {
                &&& exists|now: Instant|
                    clock_usable(now) && #[trigger] issued(
                        saved,
                        create_request.invited_name,
                        create_request.box_id,
                        user_id,
                        now,
                    )
                &&& final(store).invitations() == old(store).invitations().insert(
                    saved.id@,
                    saved,
                )
            },
            Err(e) => {
                &&& final(store).invitations() == old(store).invitations()
                &&& e matches AppError::InternalServerError(m)
                &&& (m@ == CLOCK_OUT_OF_RANGE@ || exists|se: StoreError|
                    m@ == "DynamoDB create_invitation error: "@ + #[trigger] store_error_message(
                        se,
                    ))
                &&& old(store).reliable() ==> m@ == CLOCK_OUT_OF_RANGE@
            },
        },
{
    let invite_code = new_invite_code();
    let id = new_uuid();
    let now = now_instant();
    let ghost name = create_request.invited_name;
    let ghost box_id = create_request.box_id;
    let invitation = match new_invitation(id, invite_code, create_request, user_id, &now) {
        Some(inv) => inv,
        None => {
            return Err(AppError::InternalServerError(owned(CLOCK_OUT_OF_RANGE)));
        },
    };
    proof {
        reveal_strlit("DynamoDB ");
        reveal_strlit(" error: ");
        reveal_strlit("create_invitation");
    }
    let ghost sent = invitation;
    match store.create_invitation(invitation) {
        Ok(saved) => {
            assert(saved == sent);
            assert(issued(saved, name, box_id, user_id, now));
            Ok(saved)
        },
        Err(e) => {
            let msg = e.to_string();
            let err = map_dynamo_error("create_invitation", msg.as_str());
            proof {
                reveal_strlit("DynamoDB create_invitation error: ");
                assert("DynamoDB "@ + "create_invitation"@ + " error: "@
                    =~= "DynamoDB create_invitation error: "@);
                assert(err->InternalServerError_0@ == "DynamoDB create_invitation error: "@
                    + store_error_message(e));
                assert(err->InternalServerError_0@ != CLOCK_OUT_OF_RANGE@) by {
                    reveal_strlit("Clock out of range");
                    assert(err->InternalServerError_0@[0] == 'D');
                    assert(CLOCK_OUT_OF_RANGE@[0] == 'C');
                }
            }
            Err(err)
        },
    }
}

/// The event announcing that an invitation was viewed and claimed.
pub fn viewed_event(invitation: &Invitation, timestamp: String) -> (r: InvitationEvent)
    ensures
        r.event_type@ == "invitation_viewed"@,
        r.invitation_id == invitation.id,
        r.box_id == invitation.box_id,
        r.user_id == invitation.linked_user_id,
        r.invite_code == invitation.invite_code,
        r.timestamp == timestamp,
{
    InvitationEvent {
        event_type: owned("invitation_viewed"),
        invitation_id: invitation.id.clone(),
        box_id: invitation.box_id.clone(),
        user_id: invitation.linked_user_id.clone(),
        invite_code: invitation.invite_code.clone(),
        timestamp,
    }
}

/// The outcome of claiming an invitation: the answer to the user, and the
/// event to announce.
pub struct ClaimedInvitation {
    pub response: MessageResponse,
    pub event: InvitationEvent,
}

/// `c` is what claiming the unused invitation `i`, which has the invite
/// code `code`, by `user` answers, having turned the store's invitations
/// `before` into `after`.
pub open spec fn claim_outcome(
    before: Map<Seq<char>, Invitation>,
    after: Map<Seq<char>, Invitation>,
    i: Invitation,
    code: Seq<char>,
    user: String,
    c: ClaimedInvitation,
) -> bool {
    &&& stored(before, i)
    &&& i.invite_code@ == code
    &&& !is_used(i)
    &&& after == before.insert(i.id@, claimed(i, user))
    &&& c.response.message@ == "User successfully bound to invitation for box "@ + i.box_id@
    &&& c.response.box_id == Some(i.box_id)
    &&& c.event.event_type@ == "invitation_viewed"@
    &&& c.event.invitation_id == i.id
    &&& c.event.box_id == i.box_id
    &&& c.event.user_id == Some(user)
    &&& c.event.invite_code == i.invite_code
}

/// `read` is a possible answer of the store holding `m` to a lookup of the
/// invite code `code`: an invitation it holds under that code, or an error.
pub open spec fn read_of_code(m: Map<Seq<char>, Invitation>, code: Seq<char>, read: Result<
    Invitation,
    StoreError,
>) -> bool {
    read matches Ok(i) ==> stored(m, i) && i.invite_code@ == code
}

/// `r` is what claiming by `user` answers once the lookup of the invite code
/// `code` gave `read`, the store's invitations going from `before` to
/// `after`: a failed lookup is passed on, a used invitation is refused, and
/// an unused one is claimed, which a reliable store always allows.
pub open spec fn claim_answers(
    before: Map<Seq<char>, Invitation>,
    after: Map<Seq<char>, Invitation>,
    reliable: bool,
    user: String,
    code: Seq<char>,
    read: Result<Invitation, StoreError>,
    r: Result<ClaimedInvitation, AppError>,
) -> bool {
    match read {
        Err(se) => after == before && (r matches Err(e) && from_store_spec(se, e)),
        Ok(i) => if is_used(i) {
            &&& after == before
            &&& r matches Err(AppError::Forbidden(m))
            &&& m@ == "Invitation with code "@ + code + " has already been used"@
        } else {
            &&& reliable ==> r is Ok
            &&& match r {
                Ok(c) => claim_outcome(before, after, i, code, user, c),
                Err(e) => after == before && exists|se: StoreError| #[trigger]
                    from_store_spec(se, e),
            }
        },
    }
}

/// Claims for the authenticated user the invitation that the lookup of the
/// code `invite_code` gave back as `read`: an unused invitation is marked
/// opened and linked to the user; a used one is refused. Store errors
/// become service errors.
pub fn claim_read<S: InvitationStore>(
    store: &mut S,
    auth_user_id: String,
    invite_code: &str,
    read: Result<Invitation, StoreError>,
) -> (r: Result<ClaimedInvitation, AppError>)
    requires
        old(store).inv(),
        read_of_code(old(store).invitations(), invite_code@, read),
    ensures
        final(store).inv(),
        final(store).reliable() == old(store).reliable(),
        claim_answers(
            old(store).invitations(),
            final(store).invitations(),
            old(store).reliable(),
            auth_user_id,
            invite_code@,
            read,
            r,
        ),
{
    let mut invitation = match read {
        Ok(i) => i,
        Err(e) => {
            let ghost se = e;
            let err = AppError::from(e);
            assert(from_store_spec(se, err));
            return Err(err);
        },
    };
    if invitation.opened || invitation.linked_user_id.is_some() {
        return Err(
            AppError::Forbidden(
                concat3("Invitation with code ", invite_code, " has already been used"),
            ),
        );
    }
    let ghost original = invitation;
    invitation.opened = true;
    invitation.linked_user_id = Some(auth_user_id.clone());
    assert(invitation == claimed(original, auth_user_id));
    let updated = match store.update_invitation(invitation) {
        Ok(u) => u,
        Err(e) => {
            let ghost se = e;
            let err = AppError::from(e);
            assert(from_store_spec(se, err));
            return Err(err);
        },
    };
    let event = viewed_event(&updated, now_str());
    let response = MessageResponse {
        message: concat("User successfully bound to invitation for box ", updated.box_id.as_str()),
        box_id: Some(updated.box_id.clone()),
    };
    let c = ClaimedInvitation { response, event };
    assert(claim_outcome(
        old(store).invitations(),
        store.invitations(),
        original,
        invite_code@,
        auth_user_id,
        c,
    ));
    Ok(c)
}

/// Claims the invitation with the request's code for the authenticated
/// user: an unused invitation is marked opened and linked to the user; a
/// used one is refused. Store errors become service errors.
pub fn handle_invitation<S: InvitationStore>(
    store: &mut S,
    auth_user_id: String,
    request: ConnectToUserRequest,
) -> (r: Result<ClaimedInvitation, AppError>)
    requires
        old(store).inv(),
    ensures
        final(store).inv(),
        final(store).reliable() == old(store).reliable(),
        exists|read: Result<Invitation, StoreError>|
            read_of_code(old(store).invitations(), request.invite_code@, read)
                && #[trigger] claim_answers(
                old(store).invitations(),
                final(store).invitations(),
                old(store).reliable(),
                auth_user_id,
                request.invite_code@,
                read,
                r,
            ),
        old(store).reliable() && old(store).finds_code(request.invite_code@) && (forall|id: Seq<char>|
            #[trigger] old(store).invitations().contains_key(id)
                && old(store).invitations()[id].invite_code@ == request.invite_code@ ==> !is_used(
                old(store).invitations()[id],
            )) ==> r is Ok,
        match r {
            Ok(c) => exists|i: Invitation|
                #[trigger] claim_outcome(
                    old(store).invitations(),
                    final(store).invitations(),
                    i,
                    request.invite_code@,
                    auth_user_id,
                    c,
                ),
            Err(e) => {
                &&& final(store).invitations() == old(store).invitations()
                &&& (e matches AppError::Forbidden(m) ==> m@ == "Invitation with code "@
                    + request.invite_code@ + " has already been used"@)
                &&& (e is Forbidden || exists|se: StoreError| #[trigger] from_store_spec(se, e))
            },
        },
{
    let read = store.get_invitation_by_code(request.invite_code.as_str());
    let ghost before = store.invitations();
    let r = claim_read(store, auth_user_id, request.invite_code.as_str(), read);
    proof {
        assert(claim_answers(
            before,
            store.invitations(),
            old(store).reliable(),
            auth_user_id,
            request.invite_code@,
            read,
            r,
        ));
        if r is Ok {
            let c = r->Ok_0;
            let i = read->Ok_0;
            assert(claim_outcome(
                before,
                store.invitations(),
                i,
                request.invite_code@,
                auth_user_id,
                c,
            ));
        }
    }
    r
}

/// Gives an unused invitation of `user_id` a fresh code and a new expiry 48
/// hours from now. An invitation the user did not create, or one already
/// used, is refused.
pub fn refresh_invitation<S: InvitationStore>(
    store: &mut S,
    user_id: String,
    invite_id: String,
) -> (r: Result<Invitation, AppError>)
    requires
        old(store).inv(),
    ensures
        final(store).inv(),
        final(store).reliable() == old(store).reliable(),
        old(store).reliable() ==> {
            let m = old(store).invitations();
            let owned = m.contains_key(invite_id@) && m[invite_id@].creator_id@ == user_id@;
            &&& !owned ==> (r matches Err(AppError::Forbidden(msg)) && msg@ == "Invitation "@
                + invite_id@ + " is not owned by user"@)
            &&& owned && is_used(m[invite_id@]) ==> (r matches Err(AppError::Forbidden(msg))
                && msg@ == "Invitation "@ + invite_id@
                + " has already been used and cannot be refreshed."@)
            &&& owned && !is_used(m[invite_id@]) ==> (r is Ok || (r matches Err(
                AppError::InternalServerError(msg),
            ) && msg@ == CLOCK_OUT_OF_RANGE@))
        },
        match r {
            Ok(saved) => exists|i: Invitation, now: Instant|
                #[trigger] stored(old(store).invitations(), i) && #[trigger] clock_usable(now) && {
                    &&& i.id@ == invite_id@
                    &&& i.creator_id@ == user_id@
                    &&& !is_used(i)
                    &&& is_invite_code(saved.invite_code@)
                    &&& saved == (Invitation {
                        invite_code: saved.invite_code,
                        expires_at: saved.expires_at,
                        ..i
                    })
                    &&& saved.expires_at@ == expiry_text(now)
                    &&& final(store).invitations() == old(store).invitations().insert(
                        i.id@,
                        saved,
                    )
                },
            Err(e) => {
                &&& final(store).invitations() == old(store).invitations()
                &&& match e {
                    AppError::Forbidden(m) => {
                        ||| (m@ == "Invitation "@ + invite_id@ + " is not owned by user"@ && !(
                        old(store).invitations().contains_key(invite_id@) && old(
                            store,
                        ).invitations()[invite_id@].creator_id@ == user_id@))
                        ||| (m@ == "Invitation "@ + invite_id@
                            + " has already been used and cannot be refreshed."@ && old(
                            store,
                        ).invitations().contains_key(invite_id@) && is_used(
                            old(store).invitations()[invite_id@],
                        ))
                    },
                    AppError::InternalServerError(m) => m@ == CLOCK_OUT_OF_RANGE@ || exists|
                        se: StoreError,
                    | #[trigger] from_store_spec(se, e),
                    _ => exists|se: StoreError| #[trigger] from_store_spec(se, e),
                }
            },
        },
{
    let invitations = match store.get_invitations_by_creator_id(user_id.as_str()) {
        Ok(v) => v,
        Err(e) => {
            let ghost se = e;
            let err = AppError::from(e);
            assert(from_store_spec(se, err));
            return Err(err);
        },
    };
    let mut k: usize = 0;
    while k < invitations.len()
        invariant
            k <= invitations@.len(),
            forall|j: int| 0 <= j < k ==> invitations@[j].id@ != invite_id@,
        ensures
            k <= invitations@.len(),
            k < invitations@.len() ==> invitations@[k as int].id@ == invite_id@,
            forall|j: int| 0 <= j < k ==> invitations@[j].id@ != invite_id@,
        decreases invitations@.len() - k,
    {
        if eq_string(&invitations[k].id, &invite_id) {
            break;
        }
        k = k + 1;
    }
    if k == invitations.len() {
        proof {
            if old(store).invitations().contains_key(invite_id@) && old(
                store,
            ).invitations()[invite_id@].creator_id@ == user_id@ {
                let j = choose|j: int|
                    0 <= j < invitations@.len() && invitations@[j].id@ == invite_id@;
                assert(invitations@[j].id@ != invite_id@);
            }
        }
        return Err(
            AppError::Forbidden(concat3("Invitation ", invite_id.as_str(), " is not owned by user")),
        );
    }
    let mut invitation = invitations[k].clone();
    assert(stored(old(store).invitations(), invitation));
    if invitation.opened || invitation.linked_user_id.is_some() {
        return Err(
            AppError::Forbidden(
                concat3(
                    "Invitation ",
                    invite_id.as_str(),
                    " has already been used and cannot be refreshed.",
                ),
            ),
        );
    }
    let ghost original = invitation;
    let now = now_instant();
    let expires_at = match invitation_times(&now) {
        Some((_, expires)) => expires,
        None => {
            return Err(AppError::InternalServerError(owned(CLOCK_OUT_OF_RANGE)));
        },
    };
    invitation.invite_code = new_invite_code();
    invitation.expires_at = expires_at;
    match store.update_invitation(invitation) {
        Ok(saved) => {
            assert(stored(old(store).invitations(), original) && clock_usable(now));
            Ok(saved)
        },
        Err(e) => {
            let ghost se = e;
            let err = AppError::from(e);
            assert(from_store_spec(se, err));
            Err(err)
        },
    }
}

/// The invitations `user_id` created. A store failure is reported as an
/// internal error naming the operation.
pub fn get_my_invitations<S: InvitationStore>(store: &S, user_id: String) -> (r: Result<
    Vec<Invitation>,
    AppError,
>)
    requires
        store.inv(),
    ensures
        store.reliable() ==> r is Ok,
        match r {
            Ok(v) => lists_created_by(store.invitations(), user_id@, v@),
            Err(e) => e matches AppError::InternalServerError(m) && exists|se: StoreError|
                m@ == "DynamoDB get_invitations_by_creator_id error: "@
                    + #[trigger] store_error_message(se),
        },
{
    match store.get_invitations_by_creator_id(user_id.as_str()) {
        Ok(v) => {
            assert forall|i: int| 0 <= i < v@.len() implies stored(
                store.invitations(),
                #[trigger] v@[i],
            ) && v@[i].creator_id@ == user_id@ by {}
            Ok(v)
        },
        Err(e) => {
            let msg = e.to_string();
            let err = map_dynamo_error("get_invitations_by_creator_id", msg.as_str());
            proof {
                reveal_strlit("DynamoDB ");
                reveal_strlit(" error: ");
                reveal_strlit("get_invitations_by_creator_id");
                reveal_strlit("DynamoDB get_invitations_by_creator_id error: ");
                assert("DynamoDB "@ + "get_invitations_by_creator_id"@ + " error: "@
                    =~= "DynamoDB get_invitations_by_creator_id error: "@);
                assert(err->InternalServerError_0@ == "DynamoDB get_invitations_by_creator_id error: "@
                    + store_error_message(e));
            }
            Err(err)
        },
    }
}

/// An invitation issued at `now`, whose expiry falls in a four-digit year,
/// is valid until 48 hours after `now`, and expired at every instant after
/// that.
pub proof fn lemma_issued_invitation_expiry(
    inv: Invitation,
    invited_name: String,
    box_id: String,
    creator: String,
    now: Instant,
    t: Instant,
)
    requires
        issued(inv, invited_name, box_id, creator, now),
        expiry_in_text_range(now),
    ensures
        is_expired_at(inv, t) <==> instant_before(
            Instant { secs: expiry_instant(now).0, nanos: now.nanos },
            t,
        ),
{
}

/// A claimed invitation is used: claiming it again, or refreshing it, is
/// refused.
pub proof fn lemma_claimed_invitation_is_used(
    before: Map<Seq<char>, Invitation>,
    after: Map<Seq<char>, Invitation>,
    i: Invitation,
    code: Seq<char>,
    user: String,
    c: ClaimedInvitation,
)
    requires
        claim_outcome(before, after, i, code, user, c),
    ensures
        after.contains_key(i.id@),
        is_used(after[i.id@]),
        after[i.id@].linked_user_id == Some(user),
{
}

/// A refreshed invitation keeps its id, person, box, creator and creation
/// time, and stays unused: it can still be claimed.
pub proof fn lemma_refreshed_invitation_unused(i: Invitation, saved: Invitation)
    requires
        !is_used(i),
        saved == (Invitation { invite_code: saved.invite_code, expires_at: saved.expires_at, ..i }),
    ensures
        !is_used(saved),
        saved.id == i.id && saved.invited_name == i.invited_name && saved.box_id == i.box_id
            && saved.creator_id == i.creator_id && saved.created_at == i.created_at,
{
}

} // verus!
