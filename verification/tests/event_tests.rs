use lockbox::event_service::errors::{AppError, InvitationEventError};
use lockbox::event_service::handlers::{
    after_failed_attempt, check_viewing, conclude_viewing, event_kind, handle_invitation_created,
    resolve_viewing, update_specific_guardian, view_guardian, viewer_of, viewing_concluded,
    EventKind, RetryStep, MAX_RETRIES,
};
use lockbox::invitation_handler::handlers::{
    handle_invitation_viewed, is_acceptance, update_guardian_in_box, HandlerError,
};
use lockbox::shared::error::StoreError;
use lockbox::shared::mock_box_store::MockBoxStore;
use lockbox::shared::models::events::InvitationEvent;
use lockbox::shared::models::{BoxRecord, Guardian};
use lockbox::shared::store::BoxStore;
use lockbox::user_service::error::ServiceError;

fn guardian(id: &str, status: &str, invitation_id: &str) -> Guardian {
    Guardian {
        id: id.to_string(),
        name: "Test Guardian".to_string(),
        lead_guardian: false,
        status: status.to_string(),
        added_at: "2023-01-01T00:00:00Z".to_string(),
        invitation_id: invitation_id.to_string(),
    }
}

fn sample_box(id: &str, guardians: Vec<Guardian>) -> BoxRecord {
    BoxRecord {
        id: id.to_string(),
        name: "Test Box".to_string(),
        description: "Test Description".to_string(),
        is_locked: false,
        created_at: "2023-01-01T00:00:00Z".to_string(),
        updated_at: "2023-01-01T00:00:00Z".to_string(),
        owner_id: "test_owner".to_string(),
        owner_name: Some("Test Owner".to_string()),
        documents: vec![],
        guardians,
        unlock_instructions: None,
        unlock_request: None,
        version: 0,
    }
}

fn event(event_type: &str, invitation_id: &str, box_id: &str, user: Option<&str>) -> InvitationEvent {
    InvitationEvent {
        event_type: event_type.to_string(),
        invitation_id: invitation_id.to_string(),
        box_id: box_id.to_string(),
        user_id: user.map(|u| u.to_string()),
        invite_code: "test-code".to_string(),
        timestamp: "2024-01-01T00:00:00+00:00".to_string(),
    }
}

/// The steps the event handler takes for one `invitation_viewed` event: the
/// event's kind, its viewer, the check of the box, one attempt, and the
/// resolution of its outcome.
fn handle_viewed_event(store: &mut MockBoxStore, e: &InvitationEvent) -> Result<(), AppError> {
    assert_eq!(event_kind(&e.event_type), EventKind::InvitationViewed);
    let user = viewer_of(e)?;
    let outcome = match check_viewing(&*store, &e.box_id, &user) {
        Ok(()) => update_specific_guardian(store, &e.box_id, &e.invitation_id, &user),
        Err(err) => Err(err),
    };
    resolve_viewing(outcome)
}

#[test]
fn test_invitation_viewed_handler() {
    let box_id = "test_box_789";
    let invitation_id = "test_invitation_101";
    let user_id = "test_user_1";
    let mut store = MockBoxStore::new();
    store
        .create_box(sample_box(box_id, vec![guardian("placeholder_id", "invited", invitation_id)]))
        .unwrap();
    let e = event("invitation_viewed", invitation_id, box_id, Some(user_id));
    assert!(handle_viewed_event(&mut store, &e).is_ok());
    let b = store.get_box(box_id).unwrap();
    let g = b.guardians.iter().find(|g| g.invitation_id == invitation_id).unwrap();
    assert_eq!(g.id, user_id);
    assert_eq!(g.status, "viewed");
    assert_eq!(g.name, "Test Guardian");
    assert!(!g.lead_guardian);
    // A repeated event leaves the box as it is.
    update_specific_guardian(&mut store, box_id, invitation_id, user_id).unwrap();
    assert_eq!(store.get_box(box_id).unwrap().version, b.version);
    conclude_viewing(&store, box_id, invitation_id, user_id, AppError::InternalError("x".into()))
        .unwrap();
}

#[test]
fn test_no_matching_guardian() {
    let box_id = "test_box_123";
    let invitation_id = "non_existent_invitation";
    let mut existing = guardian("placeholder_id", "invited", "different_invitation_id");
    existing.name = "Existing Guardian".to_string();
    let mut store = MockBoxStore::new();
    store.create_box(sample_box(box_id, vec![existing])).unwrap();
    // The attempt itself reports the missing guardian ...
    match update_specific_guardian(&mut store, box_id, invitation_id, "test_user_1") {
        Err(AppError::GuardianNotFound(m)) => {
            assert_eq!(m, "No guardian found with invitation ID: non_existent_invitation")
        }
        other => panic!("unexpected {:?}", other),
    }
    // ... which the handler ignores.
    let e = event("invitation_viewed", invitation_id, box_id, Some("test_user_1"));
    assert!(handle_viewed_event(&mut store, &e).is_ok());
    let b = store.get_box(box_id).unwrap();
    let g = &b.guardians[0];
    assert_eq!(g.invitation_id, "different_invitation_id");
    assert_eq!(g.id, "placeholder_id");
    assert_eq!(g.status, "invited");
}

#[test]
fn test_concurrent_updates() {
    let mut store = MockBoxStore::with_data(vec![sample_box(
        "box-1",
        vec![
            guardian("p1", "invited", "inv-1"),
            guardian("p2", "invited", "inv-2"),
            guardian("p3", "invited", "inv-3"),
        ],
    )]);
    for (inv, user) in [("inv-1", "test_user_1"), ("inv-2", "test_user_2"), ("inv-3", "test_user_3")] {
        update_specific_guardian(&mut store, "box-1", inv, user).unwrap();
    }
    let b = store.get_box("box-1").unwrap();
    for (i, user) in ["test_user_1", "test_user_2", "test_user_3"].iter().enumerate() {
        assert_eq!(b.guardians[i].id, *user);
        assert_eq!(b.guardians[i].status, "viewed");
    }
}

#[test]
fn guardian_in_other_state_is_left_alone() {
    let mut store = MockBoxStore::with_data(vec![sample_box(
        "box-1",
        vec![guardian("someone", "accepted", "inv-1")],
    )]);
    update_specific_guardian(&mut store, "box-1", "inv-1", "test_user").unwrap();
    let b = store.get_box("box-1").unwrap();
    assert_eq!(b.guardians[0].id, "someone");
    assert_eq!(b.version, 0);
    let e = conclude_viewing(&store, "box-1", "inv-1", "test_user", AppError::InternalError("last".into()))
        .unwrap_err();
    assert!(matches!(e, AppError::InternalError(m) if m == "last"));
}

#[test]
fn missing_box_and_user_checks() {
    let mut store = MockBoxStore::new();
    match check_viewing(&store, "nope", "u") {
        Err(AppError::BoxNotFound(m)) => assert_eq!(
            m,
            "Box not found: nope, error: Not found: Box with id nope not found"
        ),
        other => panic!("unexpected {:?}", other),
    }
    match check_viewing(&store, "nope", "") {
        Err(AppError::InternalError(m)) => assert_eq!(m, "User ID cannot be empty"),
        other => panic!("unexpected {:?}", other),
    }
    match update_specific_guardian(&mut store, "nope", "i", "u") {
        Err(AppError::InternalError(m)) => assert_eq!(m, "Not found: Box with id nope not found"),
        other => panic!("unexpected {:?}", other),
    }
    assert!(resolve_viewing(Err(AppError::BoxNotFound("b".into()))).is_ok());
    assert!(resolve_viewing(Err(AppError::VersionConflict("v".into()))).is_err());
}

#[test]
fn retries_back_off_and_stop() {
    let mut retries = 0;
    let mut waits = Vec::new();
    loop {
        let (n, step) = after_failed_attempt(retries);
        retries = n;
        match step {
            RetryStep::RetryAfter(ms) => waits.push(ms),
            RetryStep::GiveUpAfter(ms) => {
                waits.push(ms);
                break;
            }
        }
    }
    assert_eq!(retries, MAX_RETRIES);
    assert_eq!(waits, vec![70, 90, 110, 130, 150]);
}

#[test]
fn test_malformed_event() {
    assert_eq!(event_kind("invitation_created"), EventKind::InvitationCreated);
    assert_eq!(event_kind("invitation_viewed"), EventKind::InvitationViewed);
    assert_eq!(event_kind("something_else"), EventKind::Unknown);
    let e = event("invitation_viewed", "i", "b", None);
    match viewer_of(&e) {
        Err(AppError::InternalError(m)) => assert_eq!(m, "Missing required field: user_id"),
        other => panic!("unexpected {:?}", other),
    }
    assert_eq!(viewer_of(&event("invitation_viewed", "i", "b", Some("u"))).unwrap(), "u");
    assert!(handle_invitation_created(&e).is_ok());
}

#[test]
fn event_errors_display() {
    assert_eq!(
        InvitationEventError::MissingField("user_id".into()).to_string(),
        "Missing required field: user_id"
    );
    match InvitationEventError::from(StoreError::VersionConflict("v".into())) {
        InvitationEventError::UpdateError(m) => assert_eq!(m, "Concurrent update conflict: v"),
        other => panic!("unexpected {:?}", other),
    }
    match AppError::from(StoreError::NotFound("b".into())) {
        AppError::BoxNotFound(m) => assert_eq!(m, "b"),
        other => panic!("unexpected {:?}", other),
    }
    assert_eq!(AppError::GuardianNotFound("g".into()).to_string(), "Guardian not found: g");
}

#[test]
fn acceptance_takes_over_the_guardian() {
    let mut store = MockBoxStore::with_data(vec![sample_box(
        "box-1",
        vec![guardian("p0", "invited", "other"), guardian("p1", "invited", "inv-1")],
    )]);
    assert!(is_acceptance("invitation_accepted"));
    assert!(!is_acceptance("invitation_viewed"));
    handle_invitation_viewed(&mut store, &event("invitation_accepted", "inv-1", "box-1", Some("u1")))
        .unwrap();
    let b = store.get_box("box-1").unwrap();
    assert_eq!(b.guardians[1].id, "u1");
    assert_eq!(b.guardians[1].status, "accepted");
    assert_eq!(b.guardians[0].id, "p0");

    match handle_invitation_viewed(&mut store, &event("invitation_accepted", "inv-1", "box-1", None)) {
        Err(HandlerError::InvalidData(m)) => assert_eq!(m, "User ID is required"),
        other => panic!("unexpected {:?}", other),
    }
    match handle_invitation_viewed(&mut store, &event("invitation_accepted", "inv-1", "nope", Some("u"))) {
        Err(HandlerError::NotFound(m)) => assert_eq!(m, "Not found: Box with id nope not found"),
        other => panic!("unexpected {:?}", other),
    }
    // No matching guardian: nothing changes.
    let before = store.get_box("box-1").unwrap().version;
    handle_invitation_viewed(&mut store, &event("invitation_accepted", "zzz", "box-1", Some("u")))
        .unwrap();
    assert_eq!(store.get_box("box-1").unwrap().version, before);
}

#[test]
fn update_guardian_in_box_reports_a_match() {
    let mut b = sample_box("b", vec![guardian("p", "invited", "inv")]);
    assert!(!update_guardian_in_box(&mut b, "other", "u"));
    assert_eq!(b.guardians[0].id, "p");
    assert!(update_guardian_in_box(&mut b, "inv", "u"));
    assert_eq!(b.guardians[0].id, "u");
    assert_eq!(b.guardians[0].status, "accepted");
    assert_ne!(b.updated_at, "2023-01-01T00:00:00Z");
}

#[test]
fn user_service_error_statuses() {
    assert_eq!(ServiceError::UserNotFound("u".into()).status_code(), 404);
    assert_eq!(ServiceError::Unauthorized.status_code(), 401);
    assert_eq!(ServiceError::DatabaseError("d".into()).status_code(), 500);
    assert_eq!(ServiceError::InvalidInput("i".into()).status_code(), 400);
    assert_eq!(ServiceError::InternalServerError("x".into()).status_code(), 500);
    assert_eq!(ServiceError::Unauthorized.to_string(), "Unauthorized access");
    assert_eq!(ServiceError::UserNotFound("u".into()).to_string(), "User not found: u");
}

#[test]
fn last_read_decides_after_failed_attempts() {
    let done = sample_box("box-1", vec![guardian("test_user", "viewed", "inv-1")]);
    let waiting = sample_box("box-1", vec![guardian("placeholder_id", "invited", "inv-1")]);
    let err = || AppError::InternalError("update failed".into());
    assert!(viewing_concluded(Ok(done.clone()), "inv-1", "test_user", err()).is_ok());
    assert!(matches!(
        viewing_concluded(Ok(done), "inv-1", "other_user", err()),
        Err(AppError::InternalError(m)) if m == "update failed"
    ));
    assert!(matches!(
        viewing_concluded(Ok(waiting), "inv-1", "test_user", err()),
        Err(AppError::InternalError(m)) if m == "update failed"
    ));
    assert!(matches!(
        viewing_concluded(Err(StoreError::InternalError("down".into())), "inv-1", "test_user", err()),
        Err(AppError::InternalError(m)) if m == "update failed"
    ));
}

#[test]
fn viewing_step_decides_on_the_read() {
    let mut store = MockBoxStore::new();
    store
        .create_box(sample_box("box-1", vec![guardian("someone", "accepted", "inv-1")]))
        .unwrap();
    let read = store.get_box("box-1");
    // A guardian no longer invited is left alone.
    view_guardian(&mut store, read, "box-1", "inv-1", "test_user").unwrap();
    assert_eq!(store.get_box("box-1").unwrap().guardians[0].id, "someone");
    assert_eq!(store.get_box("box-1").unwrap().version, 0);
    // A failed read is an internal error with the store's message.
    match view_guardian(
        &mut store,
        Err(StoreError::InternalError("down".into())),
        "box-1",
        "inv-1",
        "test_user",
    ) {
        Err(AppError::InternalError(m)) => assert_eq!(m, "Internal error: down"),
        other => panic!("unexpected {:?}", other),
    }
    // A box without the invitation's guardian is refused.
    let read = store.get_box("box-1");
    match view_guardian(&mut store, read, "box-1", "inv-9", "test_user") {
        Err(AppError::GuardianNotFound(m)) => {
            assert_eq!(m, "No guardian found with invitation ID: inv-9")
        }
        other => panic!("unexpected {:?}", other),
    }
}
