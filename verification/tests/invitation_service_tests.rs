use lockbox::invitation_service::error::{map_dynamo_error, AppError};
use lockbox::invitation_service::handlers::{
    claim_read, create_invitation, get_my_invitations, handle_invitation, invitation_times,
    new_invitation, refresh_invitation, viewed_event,
};
use lockbox::invitation_service::models::{ConnectToUserRequest, CreateInvitationRequest};
use lockbox::shared::clock::{now_instant, parse_rfc3339, Instant};
use lockbox::shared::error::StoreError;
use lockbox::shared::mock_invitation_store::MockInvitationStore;
use lockbox::shared::models::Invitation;
use lockbox::shared::store::InvitationStore;

fn invitation(id: &str, code: &str, creator: &str, expires_at: &str) -> Invitation {
    Invitation {
        id: id.to_string(),
        invite_code: code.to_string(),
        invited_name: "Test User".to_string(),
        box_id: "box-123".to_string(),
        created_at: "2023-01-01T00:00:00+00:00".to_string(),
        expires_at: expires_at.to_string(),
        opened: false,
        linked_user_id: None,
        creator_id: creator.to_string(),
    }
}

const FAR_FUTURE: &str = "2999-01-01T00:00:00+00:00";

#[test]
fn test_create_invitation() {
    let mut store = MockInvitationStore::new_with_expiry();
    let inv = create_invitation(
        &mut store,
        "test-user-id".to_string(),
        CreateInvitationRequest {
            invited_name: "Test User".to_string(),
            box_id: "box-123".to_string(),
        },
    )
    .unwrap();
    assert_eq!(inv.invite_code.len(), 8);
    assert!(inv.invite_code.chars().all(|c| c.is_ascii_uppercase()));
    assert_eq!(inv.invited_name, "Test User");
    assert_eq!(inv.box_id, "box-123");
    assert_eq!(inv.creator_id, "test-user-id");
    assert!(!inv.opened);
    assert!(inv.linked_user_id.is_none());
    let created = parse_rfc3339(&inv.created_at).unwrap();
    let expires = parse_rfc3339(&inv.expires_at).unwrap();
    assert_eq!(expires.secs - created.secs, 48 * 3600);
    let now = now_instant();
    let diff = expires.secs - now.secs;
    assert!(diff >= 47 * 3600 && diff <= 49 * 3600);
    let stored = store.get_invitations_by_creator_id("test-user-id").unwrap();
    assert_eq!(stored.len(), 1);
    assert_eq!(stored[0].id, inv.id);
}

#[test]
fn new_invitation_is_exact() {
    let now = Instant { secs: 1_700_000_000, nanos: 0 };
    let inv = new_invitation(
        "id-1".to_string(),
        "ABCDEFGH".to_string(),
        CreateInvitationRequest { invited_name: "N".to_string(), box_id: "b".to_string() },
        "creator".to_string(),
        &now,
    )
    .unwrap();
    assert_eq!(inv.id, "id-1");
    assert_eq!(inv.invite_code, "ABCDEFGH");
    assert_eq!(parse_rfc3339(&inv.created_at), Some(now));
    assert_eq!(
        parse_rfc3339(&inv.expires_at),
        Some(Instant { secs: 1_700_000_000 + 48 * 3600, nanos: 0 })
    );
    // Times before 1970 and after the year 9999 are written too ...
    let (created, expires) = invitation_times(&Instant { secs: -1, nanos: 0 }).unwrap();
    assert_eq!(created, "1969-12-31T23:59:59+00:00");
    assert_eq!(expires, "1970-01-02T23:59:59+00:00");
    let (_, expires) = invitation_times(&Instant { secs: 253402300799, nanos: 0 }).unwrap();
    assert_eq!(expires, "+10000-01-02T23:59:59+00:00");
    // ... but not beyond what chrono represents.
    assert!(invitation_times(&Instant { secs: 8210266876799, nanos: 0 }).is_none());
    assert!(invitation_times(&Instant { secs: i64::MAX, nanos: 0 }).is_none());
}

#[test]
fn test_handle_invitation() {
    let mut store = MockInvitationStore::new_with_expiry();
    store.create_invitation(invitation("inv-1", "TESTCODE", "creator", FAR_FUTURE)).unwrap();
    let claimed = handle_invitation(
        &mut store,
        "user-456".to_string(),
        ConnectToUserRequest { user_id: "someone-else".to_string(), invite_code: "TESTCODE".to_string() },
    )
    .unwrap();
    assert_eq!(claimed.response.message, "User successfully bound to invitation for box box-123");
    assert_eq!(claimed.response.box_id, Some("box-123".to_string()));
    assert_eq!(claimed.event.event_type, "invitation_viewed");
    assert_eq!(claimed.event.invitation_id, "inv-1");
    assert_eq!(claimed.event.box_id, "box-123");
    assert_eq!(claimed.event.user_id, Some("user-456".to_string()));
    assert_eq!(claimed.event.invite_code, "TESTCODE");
    assert!(!claimed.event.timestamp.is_empty());
    let stored = store.get_invitation("inv-1").unwrap();
    assert!(stored.opened);
    assert_eq!(stored.linked_user_id, Some("user-456".to_string()));

    // A second claim is refused.
    match handle_invitation(
        &mut store,
        "user-789".to_string(),
        ConnectToUserRequest { user_id: "user-789".to_string(), invite_code: "TESTCODE".to_string() },
    ) {
        Err(AppError::Forbidden(m)) => {
            assert_eq!(m, "Invitation with code TESTCODE has already been used")
        }
        other => panic!("unexpected {:?}", other.map(|_| ())),
    }
}

#[test]
fn test_handle_invitation_expired_code() {
    let mut store = MockInvitationStore::new_with_expiry();
    store
        .create_invitation(invitation("old", "EXPIRED", "creator-id", "2000-01-01T00:00:00+00:00"))
        .unwrap();
    let e = handle_invitation(
        &mut store,
        "user-456".to_string(),
        ConnectToUserRequest { user_id: "user-456".to_string(), invite_code: "EXPIRED".to_string() },
    )
    .err()
    .unwrap();
    assert!(matches!(e, AppError::InvitationExpired));
    assert_eq!(e.status_code(), 410);
    assert_eq!(e.error_message(), "Invitation has expired");
}

#[test]
fn test_handle_invitation_invalid_code() {
    let mut store = MockInvitationStore::new_with_expiry();
    let e = handle_invitation(
        &mut store,
        "user".to_string(),
        ConnectToUserRequest { user_id: "user".to_string(), invite_code: "NOSUCH".to_string() },
    )
    .err()
    .unwrap();
    assert_eq!(e.status_code(), 404);
}

#[test]
fn test_refresh_invitation() {
    let mut store = MockInvitationStore::new_with_expiry();
    store.create_invitation(invitation("inv-1", "OLDCODE1", "test-user-id", FAR_FUTURE)).unwrap();
    let refreshed =
        refresh_invitation(&mut store, "test-user-id".to_string(), "inv-1".to_string()).unwrap();
    assert_eq!(refreshed.id, "inv-1");
    assert_ne!(refreshed.invite_code, "OLDCODE1");
    assert_eq!(refreshed.invite_code.len(), 8);
    assert_ne!(refreshed.expires_at, FAR_FUTURE);
    let expires = parse_rfc3339(&refreshed.expires_at).unwrap();
    let diff = expires.secs - now_instant().secs;
    assert!(diff >= 47 * 3600 && diff <= 49 * 3600);
    assert_eq!(refreshed.box_id, "box-123");
    assert_eq!(refreshed.invited_name, "Test User");
    assert_eq!(refreshed.creator_id, "test-user-id");
    assert!(!refreshed.opened);
    assert!(refreshed.linked_user_id.is_none());
    assert_eq!(store.get_invitation("inv-1").unwrap().invite_code, refreshed.invite_code);
}

#[test]
fn test_refresh_invitation_invalid_id() {
    let mut store = MockInvitationStore::new_with_expiry();
    store.create_invitation(invitation("inv-1", "CODE", "owner", FAR_FUTURE)).unwrap();
    match refresh_invitation(&mut store, "owner".to_string(), "nope".to_string()) {
        Err(AppError::Forbidden(m)) => assert_eq!(m, "Invitation nope is not owned by user"),
        other => panic!("unexpected {:?}", other.map(|_| ())),
    }
    match refresh_invitation(&mut store, "intruder".to_string(), "inv-1".to_string()) {
        Err(AppError::Forbidden(m)) => assert_eq!(m, "Invitation inv-1 is not owned by user"),
        other => panic!("unexpected {:?}", other.map(|_| ())),
    }
}

#[test]
fn refresh_of_used_invitation_is_refused() {
    let mut used = invitation("inv-1", "CODE", "owner", FAR_FUTURE);
    used.opened = true;
    let mut store = MockInvitationStore::with_data(vec![used]);
    match refresh_invitation(&mut store, "owner".to_string(), "inv-1".to_string()) {
        Err(AppError::Forbidden(m)) => assert_eq!(
            m,
            "Invitation inv-1 has already been used and cannot be refreshed."
        ),
        other => panic!("unexpected {:?}", other.map(|_| ())),
    }
}

#[test]
fn test_get_my_invitations() {
    let mut store = MockInvitationStore::new_with_expiry();
    store.create_invitation(invitation("a", "A", "test-user-id", FAR_FUTURE)).unwrap();
    store.create_invitation(invitation("b", "B", "test-user-id", FAR_FUTURE)).unwrap();
    store.create_invitation(invitation("c", "C", "other", FAR_FUTURE)).unwrap();
    let mine = get_my_invitations(&store, "test-user-id".to_string()).unwrap();
    assert_eq!(mine.len(), 2);
    assert!(mine.iter().all(|i| i.creator_id == "test-user-id"));
}

#[test]
fn test_get_my_invitations_empty() {
    let store = MockInvitationStore::new_with_expiry();
    assert!(get_my_invitations(&store, "test-user-id".to_string()).unwrap().is_empty());
}

#[test]
fn test_get_my_invitations_error() {
    let store = MockInvitationStore::new_error();
    let e = get_my_invitations(&store, "test-user-id".to_string()).err().unwrap();
    assert_eq!(e.status_code(), 500);
    match e {
        AppError::InternalServerError(m) => assert_eq!(
            m,
            "DynamoDB get_invitations_by_creator_id error: Internal error: Mock store failure"
        ),
        other => panic!("unexpected {:?}", other),
    }
}

#[test]
fn invitation_errors_and_statuses() {
    assert_eq!(AppError::from(StoreError::NotFound("x".into())).status_code(), 404);
    assert_eq!(AppError::from(StoreError::InvitationExpired).status_code(), 410);
    assert_eq!(AppError::from(StoreError::AuthError("a".into())).status_code(), 401);
    match AppError::from(StoreError::VersionConflict("v".into())) {
        AppError::BadRequest(m) => assert_eq!(m, "Concurrent modification detected: v"),
        other => panic!("unexpected {:?}", other),
    }
    assert_eq!(AppError::forbidden("f".into()).status_code(), 403);
    assert_eq!(AppError::bad_gateway("g".into()).status_code(), 502);
    assert_eq!(AppError::invitation_expired().to_string(), "Invitation expired");
    assert_eq!(AppError::Forbidden("no".into()).to_string(), "Forbidden: no");
    match map_dynamo_error("publish_to_sns", "down") {
        AppError::InternalServerError(m) => assert_eq!(m, "DynamoDB publish_to_sns error: down"),
        other => panic!("unexpected {:?}", other),
    }
}

#[test]
fn viewed_event_copies_the_invitation() {
    let mut inv = invitation("inv-9", "CODE", "c", FAR_FUTURE);
    inv.linked_user_id = Some("u".to_string());
    let e = viewed_event(&inv, "2024-01-01T00:00:00+00:00".to_string());
    assert_eq!(e.event_type, "invitation_viewed");
    assert_eq!(e.invitation_id, "inv-9");
    assert_eq!(e.user_id, Some("u".to_string()));
    assert_eq!(e.timestamp, "2024-01-01T00:00:00+00:00");
}

#[test]
fn refreshed_invitation_can_still_be_claimed() {
    let mut store = MockInvitationStore::new_with_expiry();
    store.create_invitation(invitation("inv-1", "OLDCODE1", "owner", FAR_FUTURE)).unwrap();
    let refreshed = refresh_invitation(&mut store, "owner".to_string(), "inv-1".to_string()).unwrap();
    let claimed = handle_invitation(
        &mut store,
        "guest".to_string(),
        ConnectToUserRequest { user_id: "guest".to_string(), invite_code: refreshed.invite_code.clone() },
    )
    .unwrap();
    assert_eq!(claimed.event.invite_code, refreshed.invite_code);
    // A claimed invitation can no longer be refreshed.
    assert!(matches!(
        refresh_invitation(&mut store, "owner".to_string(), "inv-1".to_string()),
        Err(AppError::Forbidden(_))
    ));
}

#[test]
fn claim_read_decides_on_the_lookup() {
    let unused = invitation("inv-1", "TESTCODE", "creator-id", FAR_FUTURE);
    let mut store = MockInvitationStore::with_data(vec![unused.clone()]);
    // An expired lookup is passed on, and nothing changes.
    match claim_read(&mut store, "user-456".to_string(), "TESTCODE", Err(StoreError::InvitationExpired)) {
        Err(AppError::InvitationExpired) => {}
        other => panic!("unexpected {:?}", other.map(|c| c.response.message)),
    }
    assert!(!store.get_invitation("inv-1").unwrap().opened);
    // A used invitation is refused.
    let mut used = invitation("inv-2", "USEDCODE", "creator-id", FAR_FUTURE);
    used.linked_user_id = Some("someone".to_string());
    let mut used_store = MockInvitationStore::with_data(vec![used.clone()]);
    match claim_read(&mut used_store, "user-456".to_string(), "USEDCODE", Ok(used)) {
        Err(AppError::Forbidden(m)) => {
            assert_eq!(m, "Invitation with code USEDCODE has already been used")
        }
        other => panic!("unexpected {:?}", other.map(|c| c.response.message)),
    }
    assert_eq!(
        used_store.get_invitation("inv-2").unwrap().linked_user_id,
        Some("someone".to_string())
    );
    // An unused one is claimed.
    let c = claim_read(&mut store, "user-456".to_string(), "TESTCODE", Ok(unused)).unwrap();
    assert_eq!(c.response.box_id, Some("box-123".to_string()));
    assert_eq!(c.event.user_id, Some("user-456".to_string()));
    let saved = store.get_invitation("inv-1").unwrap();
    assert!(saved.opened);
    assert_eq!(saved.linked_user_id, Some("user-456".to_string()));
}

#[test]
fn lookup_by_code_gives_only_that_code() {
    let first = invitation("inv-1", "OLDCODEA", "creator-id", FAR_FUTURE);
    let mut replaced = first.clone();
    replaced.invite_code = "NEWCODEB".to_string();
    // The same id stored twice leaves the first code pointing at an
    // invitation that now has another code.
    let store = MockInvitationStore::with_data(vec![first, replaced]);
    assert!(matches!(store.get_invitation_by_code("OLDCODEA"), Err(StoreError::NotFound(_))));
    assert_eq!(store.get_invitation_by_code("NEWCODEB").unwrap().id, "inv-1");
}

#[test]
fn claim_on_a_store_that_finds_the_code() {
    let mut store = MockInvitationStore::with_data(vec![invitation(
        "inv-1",
        "TESTCODE",
        "creator-id",
        "2000-01-01T00:00:00+00:00",
    )]);
    let claimed = handle_invitation(
        &mut store,
        "user-456".to_string(),
        ConnectToUserRequest { user_id: "user-456".to_string(), invite_code: "TESTCODE".to_string() },
    )
    .unwrap();
    assert_eq!(claimed.response.box_id, Some("box-123".to_string()));
    let inv = store.get_invitation_by_code("TESTCODE").unwrap();
    assert!(inv.opened);
    assert_eq!(inv.linked_user_id, Some("user-456".to_string()));
}

#[test]
fn update_moves_the_code_index() {
    let first = invitation("inv-1", "OLDCODEA", "creator-id", FAR_FUTURE);
    let other = invitation("inv-2", "OTHERCOD", "creator-id", FAR_FUTURE);
    let mut store = MockInvitationStore::with_data(vec![first.clone(), other.clone()]);
    assert_eq!(store.get_invitation_by_code("OLDCODEA").unwrap().id, "inv-1");
    assert_eq!(store.get_invitation_by_code("OTHERCOD").unwrap().id, "inv-2");
    let mut changed = first.clone();
    changed.invite_code = "NEWCODEB".to_string();
    assert_eq!(store.update_invitation(changed.clone()).unwrap().invite_code, "NEWCODEB");
    assert_eq!(store.get_invitation("inv-1").unwrap().invite_code, "NEWCODEB");
    assert_eq!(store.get_invitation_by_code("NEWCODEB").unwrap().id, "inv-1");
    assert!(matches!(store.get_invitation_by_code("OLDCODEA"), Err(StoreError::NotFound(_))));
    let listed = store.get_invitations_by_creator_id("creator-id").unwrap();
    let ids: Vec<&str> = listed.iter().map(|i| i.id.as_str()).collect();
    assert_eq!(ids, vec!["inv-1", "inv-2"]);
}
