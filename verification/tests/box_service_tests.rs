use lockbox::box_service::error::AppError;
use lockbox::box_service::handlers::box_handlers::{
    apply_box_update, create_box, delete_box, delete_document, delete_guardian, get_box,
    get_boxes, update_box, update_document, update_guardian,
};
use lockbox::box_service::handlers::guardian_handlers::{
    get_guardian_box, get_guardian_boxes, request_unlock, respond_to_invitation,
    respond_to_unlock_request,
};
use lockbox::box_service::handlers::{resolve_user_id, ClaimsLookup, UserId};
use lockbox::box_service::models::{
    CreateBoxRequest, GuardianInvitationResponse, GuardianResponseRequest,
    LeadGuardianUpdateRequest, OptionalField, UpdateBoxRequest,
};
use lockbox::shared::error::StoreError;
use lockbox::shared::mock_box_store::MockBoxStore;
use lockbox::shared::models::{BoxRecord, Document, Guardian, UnlockRequest};
use lockbox::shared::store::BoxStore;

fn guardian(id: &str, status: &str, lead: bool) -> Guardian {
    Guardian {
        id: id.to_string(),
        name: format!("Guardian {}", id),
        lead_guardian: lead,
        status: status.to_string(),
        added_at: "2023-01-01T00:00:00Z".to_string(),
        invitation_id: format!("inv-{}", id),
    }
}

fn document(id: &str, title: &str) -> Document {
    Document {
        id: id.to_string(),
        title: title.to_string(),
        content: "content".to_string(),
        created_at: "2023-01-01T00:00:00Z".to_string(),
    }
}

fn sample_box(id: &str, owner: &str) -> BoxRecord {
    BoxRecord {
        id: id.to_string(),
        name: "Test Box".to_string(),
        description: "Test Description".to_string(),
        is_locked: false,
        created_at: "2023-01-01T00:00:00Z".to_string(),
        updated_at: "2023-01-01T00:00:00Z".to_string(),
        owner_id: owner.to_string(),
        owner_name: Some("Owner".to_string()),
        documents: vec![document("doc-1", "First")],
        guardians: vec![
            guardian("lead", "accepted", true),
            guardian("plain", "accepted", false),
            guardian("invitee", "invited", false),
            guardian("gone", "rejected", false),
        ],
        unlock_instructions: Some("Call me".to_string()),
        unlock_request: None,
        version: 0,
    }
}

fn store_with_box() -> MockBoxStore {
    MockBoxStore::with_data(vec![sample_box("box_1", "user_1")])
}

fn status(e: &AppError) -> u16 {
    e.status_code()
}

#[test]
fn box_tests_test_get_boxes() {
    let store = MockBoxStore::with_data(vec![
        sample_box("box_1", "user_1"),
        sample_box("box_2", "user_1"),
        sample_box("box_3", "user_2"),
    ]);
    let boxes = get_boxes(&store, "user_1").unwrap();
    assert_eq!(boxes.len(), 2);
    assert!(boxes.iter().all(|b| b.owner_id == "user_1"));
    assert!(get_boxes(&store, "nobody").unwrap().is_empty());
}

#[test]
fn test_get_box_success() {
    let store = store_with_box();
    let b = get_box(&store, "box_1", "user_1").unwrap();
    assert_eq!(b.id, "box_1");
    assert_eq!(b.documents.len(), 1);
    assert_eq!(b.guardians.len(), 4);
}

#[test]
fn box_tests_test_get_box_not_found() {
    let store = store_with_box();
    let e = get_box(&store, "missing", "user_1").unwrap_err();
    assert_eq!(status(&e), 404);
}

#[test]
fn box_tests_test_get_box_not_owned() {
    let store = store_with_box();
    let e = get_box(&store, "box_1", "user_2").unwrap_err();
    assert_eq!(status(&e), 401);
}

#[test]
fn box_tests_test_create_box() {
    let mut store = MockBoxStore::new();
    let created = create_box(
        &mut store,
        "user_1",
        CreateBoxRequest { name: "New Box".to_string(), description: "Desc".to_string() },
    )
    .unwrap();
    assert_eq!(created.name, "New Box");
    assert_eq!(created.owner_id, "user_1");
    assert_eq!(created.id.len(), 36);
    assert!(!created.is_locked);
    assert!(created.documents.is_empty() && created.guardians.is_empty());
    let fetched = get_box(&store, &created.id, "user_1").unwrap();
    assert_eq!(fetched.description, "Desc");
}

#[test]
fn box_tests_test_update_box() {
    let mut store = store_with_box();
    let updated = update_box(
        &mut store,
        "box_1",
        "user_1",
        UpdateBoxRequest {
            name: Some("Renamed".to_string()),
            description: Some("New description".to_string()),
            unlock_instructions: None,
            is_locked: Some(true),
        },
    )
    .unwrap();
    assert_eq!(updated.name, "Renamed");
    assert_eq!(updated.description, "New description");
    assert!(updated.is_locked);
    assert_eq!(updated.unlock_instructions, Some("Call me".to_string()));
}

#[test]
fn box_tests_test_update_box_clear_unlock_instructions() {
    let mut store = store_with_box();
    let updated = update_box(
        &mut store,
        "box_1",
        "user_1",
        UpdateBoxRequest {
            name: None,
            description: None,
            unlock_instructions: Some(OptionalField::Null),
            is_locked: None,
        },
    )
    .unwrap();
    assert_eq!(updated.unlock_instructions, None);
    assert_eq!(updated.name, "Test Box");
}

#[test]
fn box_tests_test_update_box_unlock_instructions() {
    let b = sample_box("b", "o");
    let updated = apply_box_update(
        b,
        UpdateBoxRequest {
            name: None,
            description: None,
            unlock_instructions: Some(OptionalField::Value("Open it".to_string())),
            is_locked: None,
        },
        "now".to_string(),
    );
    assert_eq!(updated.unlock_instructions, Some("Open it".to_string()));
    assert_eq!(updated.updated_at, "now");
}

#[test]
fn box_tests_test_update_box_not_owned() {
    let mut store = store_with_box();
    let e = update_box(
        &mut store,
        "box_1",
        "intruder",
        UpdateBoxRequest { name: Some("x".to_string()), description: None, unlock_instructions: None, is_locked: None },
    )
    .unwrap_err();
    assert_eq!(status(&e), 401);
    assert_eq!(store.get_box("box_1").unwrap().name, "Test Box");
}

#[test]
fn update_of_missing_box_is_unauthorized() {
    let mut store = store_with_box();
    match update_box(
        &mut store,
        "no_such_box",
        "user_1",
        UpdateBoxRequest { name: Some("x".to_string()), description: None, unlock_instructions: None, is_locked: None },
    ) {
        Err(AppError::Unauthorized(m)) => assert_eq!(m, "You don't have permission to update this box"),
        other => panic!("unexpected {:?}", other),
    }
    assert!(store.get_box("no_such_box").is_err());
}

#[test]
fn box_tests_test_delete_box() {
    let mut store = store_with_box();
    let m = delete_box(&mut store, "box_1", "user_1").unwrap();
    assert_eq!(m.message, "Box deleted successfully.");
    assert!(matches!(store.get_box("box_1"), Err(StoreError::NotFound(_))));
}

#[test]
fn box_tests_test_delete_box_not_owned() {
    let mut store = store_with_box();
    let e = delete_box(&mut store, "box_1", "intruder").unwrap_err();
    assert_eq!(status(&e), 401);
    assert!(store.get_box("box_1").is_ok());
}

#[test]
fn box_tests_test_update_single_guardian() {
    let mut store = store_with_box();
    let resp = update_guardian(&mut store, "box_1", "user_1", guardian("new", "invited", false))
        .unwrap();
    assert_eq!(resp.id, "new");
    assert_eq!(resp.all_guardians.len(), 5);
    // Writing an existing guardian replaces it in place.
    let resp = update_guardian(&mut store, "box_1", "user_1", guardian("plain", "rejected", true))
        .unwrap();
    assert_eq!(resp.all_guardians.len(), 5);
    assert_eq!(resp.all_guardians[1].status, "rejected");
    assert!(resp.all_guardians[1].lead_guardian);
}

#[test]
fn test_update_guardian_unauthorized() {
    let mut store = store_with_box();
    let e = update_guardian(&mut store, "box_1", "intruder", guardian("x", "invited", false))
        .unwrap_err();
    assert_eq!(status(&e), 401);
}

#[test]
fn box_tests_test_update_existing_document() {
    let mut store = store_with_box();
    let resp = update_document(&mut store, "box_1", "user_1", document("doc-1", "Changed")).unwrap();
    assert_eq!(resp.documents.len(), 1);
    assert_eq!(resp.documents[0].title, "Changed");
    let resp = update_document(&mut store, "box_1", "user_1", document("doc-2", "Second")).unwrap();
    assert_eq!(resp.documents.len(), 2);
}

#[test]
fn box_tests_test_update_document_unauthorized() {
    let mut store = store_with_box();
    let e = update_document(&mut store, "box_1", "intruder", document("d", "t")).unwrap_err();
    assert_eq!(status(&e), 401);
}

#[test]
fn test_delete_document() {
    let mut store = store_with_box();
    let (message, resp) = delete_document(&mut store, "box_1", "doc-1", "user_1").unwrap();
    assert_eq!(message, "Document deleted successfully");
    assert!(resp.documents.is_empty());
    let stored = store.get_box("box_1").unwrap();
    assert!(stored.documents.iter().all(|d| d.id != "doc-1"));
}

#[test]
fn test_delete_document_nonexistent() {
    let mut store = store_with_box();
    let e = delete_document(&mut store, "box_1", "nope", "user_1").unwrap_err();
    assert_eq!(status(&e), 404);
}

#[test]
fn test_delete_document_unauthorized() {
    let mut store = store_with_box();
    let e = delete_document(&mut store, "box_1", "doc-1", "intruder").unwrap_err();
    assert_eq!(status(&e), 401);
}

#[test]
fn delete_guardian_removes_it() {
    let mut store = store_with_box();
    let (message, resp) = delete_guardian(&mut store, "box_1", "plain", "user_1").unwrap();
    assert_eq!(message, "Guardian deleted successfully");
    assert_eq!(resp.all_guardians.len(), 3);
    match delete_guardian(&mut store, "box_1", "plain", "user_1") {
        Err(AppError::NotFound(m)) => assert_eq!(m, "Guardian with ID plain not found"),
        other => panic!("unexpected {:?}", other),
    }
}

#[test]
fn guardian_tests_test_get_guardian_boxes() {
    let store = store_with_box();
    let boxes = get_guardian_boxes(&store, "lead").unwrap();
    assert_eq!(boxes.len(), 1);
    assert!(boxes[0].is_lead_guardian);
    assert_eq!(boxes[0].guardians_count, 4);
}

#[test]
fn guardian_tests_test_get_guardian_boxes_empty_for_non_guardian() {
    let store = store_with_box();
    assert!(get_guardian_boxes(&store, "stranger").unwrap().is_empty());
    assert!(get_guardian_boxes(&store, "gone").unwrap().is_empty());
}

#[test]
fn guardian_tests_test_get_guardian_box_found() {
    let store = store_with_box();
    let gb = get_guardian_box(&store, "box_1", "plain").unwrap();
    assert_eq!(gb.id, "box_1");
    assert!(!gb.is_lead_guardian);
}

#[test]
fn guardian_tests_test_get_guardian_box_unauthorized() {
    let store = store_with_box();
    match get_guardian_box(&store, "box_1", "stranger") {
        Err(AppError::Unauthorized(m)) => assert_eq!(m, "Unauthorized or Box not found"),
        other => panic!("unexpected {:?}", other),
    }
}

#[test]
fn guardian_tests_test_get_guardian_box_not_found() {
    let store = store_with_box();
    let e = get_guardian_box(&store, "missing", "lead").unwrap_err();
    assert_eq!(status(&e), 404);
}

#[test]
fn guardian_tests_test_lead_guardian_unlock_request() {
    let mut store = store_with_box();
    let gb = request_unlock(
        &mut store,
        "box_1",
        "lead",
        LeadGuardianUpdateRequest { message: "Please unlock".to_string() },
    )
    .unwrap();
    let unlock: UnlockRequest = gb.unlock_request.unwrap();
    assert_eq!(unlock.status, "invited");
    assert_eq!(unlock.message, Some("Please unlock".to_string()));
    assert_eq!(unlock.initiated_by, Some("lead".to_string()));
    assert!(unlock.approved_by.is_empty() && unlock.rejected_by.is_empty());
    assert!(store.get_box("box_1").unwrap().unlock_request.is_some());
}

#[test]
fn guardian_tests_test_non_lead_guardian_cannot_initiate_unlock() {
    let mut store = store_with_box();
    match request_unlock(
        &mut store,
        "box_1",
        "plain",
        LeadGuardianUpdateRequest { message: "x".to_string() },
    ) {
        Err(AppError::BadRequest(m)) => assert_eq!(m, "User is not a lead guardian for this box"),
        other => panic!("unexpected {:?}", other),
    }
    assert!(store.get_box("box_1").unwrap().unlock_request.is_none());
}

#[test]
fn guardian_tests_test_accept_unlock_request() {
    let mut store = store_with_box();
    request_unlock(&mut store, "box_1", "lead", LeadGuardianUpdateRequest { message: "m".to_string() })
        .unwrap();
    let gb = respond_to_unlock_request(
        &mut store,
        "box_1",
        "plain",
        GuardianResponseRequest { approve: Some(true), reject: None },
    )
    .unwrap();
    assert_eq!(gb.unlock_request.unwrap().approved_by, vec!["plain".to_string()]);
    // A guardian answers once: a second answer of either kind is refused.
    match respond_to_unlock_request(
        &mut store,
        "box_1",
        "plain",
        GuardianResponseRequest { approve: Some(true), reject: None },
    ) {
        Err(AppError::BadRequest(m)) => {
            assert_eq!(m, "Guardian has already responded to this unlock request")
        },
        other => panic!("unexpected {:?}", other),
    }
    match respond_to_unlock_request(
        &mut store,
        "box_1",
        "plain",
        GuardianResponseRequest { approve: None, reject: Some(true) },
    ) {
        Err(AppError::BadRequest(m)) => {
            assert_eq!(m, "Guardian has already responded to this unlock request")
        },
        other => panic!("unexpected {:?}", other),
    }
    let u = store.get_box("box_1").unwrap().unlock_request.unwrap();
    assert_eq!(u.approved_by, vec!["plain".to_string()]);
    assert!(u.rejected_by.is_empty());
}

#[test]
fn guardian_tests_test_reject_unlock_request() {
    let mut store = store_with_box();
    request_unlock(&mut store, "box_1", "lead", LeadGuardianUpdateRequest { message: "m".to_string() })
        .unwrap();
    let gb = respond_to_unlock_request(
        &mut store,
        "box_1",
        "plain",
        GuardianResponseRequest { approve: None, reject: Some(true) },
    )
    .unwrap();
    assert_eq!(gb.unlock_request.unwrap().rejected_by, vec!["plain".to_string()]);
    let stored = store.get_box("box_1").unwrap().unlock_request.unwrap();
    assert_eq!(stored.rejected_by, vec!["plain".to_string()]);
    assert!(stored.approved_by.is_empty());
}

#[test]
fn guardian_tests_test_respond_to_unlock_request_invalid_payload() {
    let mut store = store_with_box();
    request_unlock(&mut store, "box_1", "lead", LeadGuardianUpdateRequest { message: "m".to_string() })
        .unwrap();
    let e = respond_to_unlock_request(
        &mut store,
        "box_1",
        "plain",
        GuardianResponseRequest { approve: None, reject: None },
    )
    .unwrap_err();
    assert_eq!(status(&e), 400);
}

#[test]
fn guardian_tests_test_respond_without_unlock_request() {
    let mut store = store_with_box();
    match respond_to_unlock_request(
        &mut store,
        "box_1",
        "plain",
        GuardianResponseRequest { approve: Some(true), reject: None },
    ) {
        Err(AppError::BadRequest(m)) => assert_eq!(m, "No unlock request exists to update"),
        other => panic!("unexpected {:?}", other),
    }
}

#[test]
fn guardian_tests_test_non_guardian_cannot_respond() {
    let mut store = store_with_box();
    match respond_to_unlock_request(
        &mut store,
        "box_1",
        "stranger",
        GuardianResponseRequest { approve: Some(true), reject: None },
    ) {
        Err(AppError::Unauthorized(m)) => assert_eq!(m, "Not a guardian for this box"),
        other => panic!("unexpected {:?}", other),
    }
}

#[test]
fn invited_guardian_accepts_and_rejects() {
    let mut store = store_with_box();
    let answer = respond_to_invitation(
        &mut store,
        "box_1",
        "invitee",
        GuardianInvitationResponse { accept: true },
    )
    .unwrap();
    assert_eq!(answer.message, "Guardian invitation accepted successfully");
    assert!(answer.guardian_box.is_some());
    assert_eq!(store.get_box("box_1").unwrap().guardians[2].status, "accepted");
    // No invitation is pending any more.
    match respond_to_invitation(
        &mut store,
        "box_1",
        "invitee",
        GuardianInvitationResponse { accept: false },
    ) {
        Err(AppError::BadRequest(m)) => assert_eq!(m, "No pending invitation found for this box"),
        other => panic!("unexpected {:?}", other),
    }
}

#[test]
fn errors_map_to_statuses() {
    assert_eq!(AppError::from(StoreError::NotFound("x".into())).status_code(), 404);
    assert_eq!(AppError::from(StoreError::ValidationError("x".into())).status_code(), 400);
    assert_eq!(AppError::from(StoreError::InternalError("x".into())).status_code(), 500);
    assert_eq!(AppError::from(StoreError::InvitationExpired).status_code(), 422);
    assert_eq!(AppError::from(StoreError::AuthError("x".into())).status_code(), 401);
    match AppError::from(StoreError::VersionConflict("v".into())) {
        AppError::BadRequest(m) => {
            assert_eq!(m, "Concurrent modification detected, please retry: v")
        }
        other => panic!("unexpected {:?}", other),
    }
    assert_eq!(AppError::NotFound("x".into()).to_string(), "Not found: x");
    assert_eq!(AppError::SerializationError("bad".into()).status_code(), 400);
}

#[test]
fn test_auth_middleware_success_debug_header_fallback() {
    let user = resolve_user_id(None, None, Some(Some("dev-user".to_string())), true).unwrap();
    assert_eq!(user, "dev-user");
    let user = resolve_user_id(Some(ClaimsLookup::Sub("sub-1".to_string())), None, None, false)
        .unwrap();
    assert_eq!(user, "sub-1");
}

#[test]
fn test_auth_middleware_failure_debug_no_header() {
    match resolve_user_id(None, None, None, true) {
        Err(AppError::Unauthorized(m)) => assert_eq!(m, "No authentication information found"),
        other => panic!("unexpected {:?}", other),
    }
    match resolve_user_id(None, None, Some(Some("dev".to_string())), false) {
        Err(AppError::Unauthorized(m)) => assert_eq!(m, "No authentication information found"),
        other => panic!("unexpected {:?}", other),
    }
    match UserId::from_header(None) {
        Err(AppError::Unauthorized(m)) => assert_eq!(m, "Missing x-user-id header"),
        other => panic!("unexpected {:?}", other.map(|u| u.0)),
    }
}

#[test]
fn writing_a_guardian_twice_is_writing_it_once() {
    let mut store = store_with_box();
    let once = update_guardian(&mut store, "box_1", "user_1", guardian("new", "invited", true))
        .unwrap();
    let twice = update_guardian(&mut store, "box_1", "user_1", guardian("new", "invited", true))
        .unwrap();
    assert_eq!(once.all_guardians.len(), twice.all_guardians.len());
    let ids = |gs: &Vec<Guardian>| gs.iter().map(|g| g.id.clone()).collect::<Vec<_>>();
    assert_eq!(ids(&once.all_guardians), ids(&twice.all_guardians));
}

fn named_guardian(id: &str, name: &str, lead: bool, invitation_id: &str) -> Guardian {
    Guardian {
        id: id.to_string(),
        name: name.to_string(),
        lead_guardian: lead,
        status: "accepted".to_string(),
        added_at: "2024-01-01T00:00:00Z".to_string(),
        invitation_id: invitation_id.to_string(),
    }
}

fn guardian_test_box(
    id: &str,
    owner: &str,
    guardians: Vec<Guardian>,
    unlock_request: Option<UnlockRequest>,
) -> BoxRecord {
    BoxRecord {
        id: id.to_string(),
        name: "Guardian Test Box".to_string(),
        description: "Box for guardian tests".to_string(),
        is_locked: true,
        created_at: "2024-01-01T00:00:00Z".to_string(),
        updated_at: "2024-01-01T00:00:00Z".to_string(),
        owner_id: owner.to_string(),
        owner_name: None,
        documents: vec![],
        guardians,
        unlock_instructions: None,
        unlock_request,
        version: 0,
    }
}

#[test]
fn guardian_boxes_of_the_guardian_test_data() {
    let unlock = UnlockRequest {
        id: "unlock-111".to_string(),
        requested_at: "2024-01-01T00:00:00Z".to_string(),
        status: "invited".to_string(),
        message: Some("Emergency access needed".to_string()),
        initiated_by: Some("lead_guardian_1".to_string()),
        approved_by: vec![],
        rejected_by: vec![],
    };
    let mut store = MockBoxStore::new();
    for b in [
        guardian_test_box(
            "11111111-1111-1111-1111-111111111111",
            "owner_1",
            vec![
                named_guardian("guardian_1", "Guardian One", false, "invitation_1"),
                named_guardian("guardian_2", "Guardian Two", false, "invitation_2"),
                named_guardian("lead_guardian_1", "Lead Guardian One", true, "invitation_3"),
            ],
            None,
        ),
        guardian_test_box(
            "22222222-2222-2222-2222-222222222222",
            "owner_1",
            vec![
                named_guardian("guardian_1", "Guardian One", false, "invitation_5"),
                named_guardian("guardian_3", "Guardian Three", false, "invitation_6"),
                named_guardian("lead_guardian_1", "Lead Guardian One", true, "invitation_7"),
            ],
            Some(unlock),
        ),
        guardian_test_box(
            "33333333-3333-3333-3333-333333333333",
            "owner_2",
            vec![named_guardian("guardian_2", "Guardian Two", false, "invitation_9")],
            None,
        ),
    ] {
        store.create_box(b).unwrap();
    }
    let boxes = get_guardian_boxes(&store, "guardian_1").unwrap();
    assert_eq!(boxes.len(), 2);
    let ids: Vec<&str> = boxes.iter().map(|b| b.id.as_str()).collect();
    assert!(ids.contains(&"11111111-1111-1111-1111-111111111111"));
    assert!(ids.contains(&"22222222-2222-2222-2222-222222222222"));
    assert_eq!(boxes[0].guardians_count, 3);
    assert!(!boxes[0].is_lead_guardian);
    assert!(get_guardian_boxes(&store, "not_a_guardian").unwrap().is_empty());
}
