use lockbox::box_service::models::OptionalField;
use lockbox::legacy::box_handlers::{
    create_box, delete_box, get_box, get_boxes, update_box, update_document, update_guardian,
};
use lockbox::legacy::error::AppError;
use lockbox::legacy::guardian_handlers::{
    get_guardian_box, get_guardian_boxes, request_unlock, respond_to_unlock_request,
};
use lockbox::legacy::models::{
    BoxRecord, CreateBoxRequest, Guardian, GuardianResponseRequest, LeadGuardianUpdateRequest,
    UpdateBoxRequest,
};
use lockbox::legacy::store::{convert_to_guardian_box, BoxStore, MemoryBoxStore};
use lockbox::shared::models::Document;

fn guardian(id: &str, status: &str, lead: bool) -> Guardian {
    Guardian {
        id: id.to_string(),
        name: format!("Guardian {}", id),
        email: format!("{}@example.com", id),
        lead,
        status: status.to_string(),
        added_at: "2023-01-01T00:00:00Z".to_string(),
    }
}

fn sample_box(id: &str, owner: &str) -> BoxRecord {
    BoxRecord {
        id: id.to_string(),
        name: "Test Box".to_string(),
        description: "Test Description".to_string(),
        is_locked: false,
        created_at: "2023-01-01T00:00:00Z".to_string(),
        updated_at: "2023-01-01T00:00:00Z".to_string(),
        owner_id: owner.to_string(),
        owner_name: Some("Owner".to_string()),
        documents: vec![],
        guardians: vec![
            guardian("lead", "accepted", true),
            guardian("pending", "pending", false),
            guardian("gone", "rejected", false),
        ],
        lead_guardians: vec![guardian("lead", "accepted", true)],
        unlock_instructions: None,
        unlock_request: None,
    }
}

#[test]
fn memory_store_round_trip() {
    let mut store = MemoryBoxStore::with_data(vec![sample_box("b1", "o1"), sample_box("b2", "o2")]);
    assert_eq!(store.get_box("b1").unwrap().owner_id, "o1");
    assert_eq!(store.get_boxes_by_owner("o1").unwrap().len(), 1);
    match store.create_box(sample_box("b1", "o1")) {
        Err(AppError::BadRequest(m)) => assert_eq!(m, "Box with ID b1 already exists"),
        other => panic!("unexpected {:?}", other),
    }
    let mut changed = store.get_box("b1").unwrap();
    changed.name = "Renamed".to_string();
    let saved = store.update_box(changed).unwrap();
    assert_eq!(saved.name, "Renamed");
    assert_ne!(saved.updated_at, "2023-01-01T00:00:00Z");
    store.delete_box("b1").unwrap();
    match store.get_box("b1") {
        Err(AppError::NotFound(m)) => assert_eq!(m, "Box not found: b1"),
        other => panic!("unexpected {:?}", other),
    }
    match store.delete_box("b1") {
        Err(AppError::NotFound(m)) => assert_eq!(m, "Box not found: b1"),
        other => panic!("unexpected {:?}", other),
    }
    let sample = MemoryBoxStore::default();
    assert_eq!(sample.get_boxes_by_owner("test_user").unwrap().len(), 1);
}

#[test]
fn test_create_and_get_box() {
    let mut store = MemoryBoxStore::with_data(vec![]);
    let created = create_box(
        &mut store,
        "user_1",
        CreateBoxRequest { name: "Box".to_string(), description: "D".to_string() },
    )
    .unwrap();
    let fetched = get_box(&store, &created.id, "user_1").unwrap();
    assert_eq!(fetched.name, "Box");
    assert_eq!(get_boxes(&store, "user_1").unwrap().len(), 1);
    assert!(get_boxes(&store, "user_2").unwrap().is_empty());
    assert_eq!(get_box(&store, &created.id, "user_2").unwrap_err().status_code(), 401);
    assert_eq!(get_box(&store, "missing", "user_1").unwrap_err().status_code(), 404);
}

#[test]
fn test_get_boxes_empty_for_new_user() {
    let store = MemoryBoxStore::with_data(vec![sample_box("b", "o")]);
    assert!(get_boxes(&store, "new-user").unwrap().is_empty());
}

#[test]
fn test_update_box_preserve_unlock_instructions_when_omitted() {
    let mut b = sample_box("b", "o");
    b.unlock_instructions = Some("keep".to_string());
    let mut store = MemoryBoxStore::with_data(vec![b]);
    let resp = update_box(
        &mut store,
        "b",
        "o",
        UpdateBoxRequest { name: Some("N".to_string()), description: None, unlock_instructions: None, is_locked: None },
    )
    .unwrap();
    assert_eq!(resp.unlock_instructions, Some("keep".to_string()));
    let resp = update_box(
        &mut store,
        "b",
        "o",
        UpdateBoxRequest {
            name: None,
            description: None,
            unlock_instructions: Some(OptionalField::Null),
            is_locked: Some(true),
        },
    )
    .unwrap();
    assert_eq!(resp.unlock_instructions, None);
    assert!(resp.is_locked);
    match update_box(
        &mut store,
        "b",
        "x",
        UpdateBoxRequest { name: None, description: None, unlock_instructions: None, is_locked: None },
    ) {
        Err(AppError::Unauthorized(m)) => assert_eq!(m, "You don't have permission to update this box"),
        other => panic!("unexpected {:?}", other),
    }
}

#[test]
fn test_update_lead_guardian() {
    let mut store = MemoryBoxStore::with_data(vec![sample_box("b", "o")]);
    // A new lead is listed among the lead guardians.
    update_guardian(&mut store, "b", "o", &guardian("new-lead", "pending", true)).unwrap();
    let b = store.get_box("b").unwrap();
    assert_eq!(b.guardians.len(), 4);
    assert!(b.lead_guardians.iter().any(|g| g.id == "new-lead"));
    // An existing lead written without the flag is taken off the list.
    update_guardian(&mut store, "b", "o", &guardian("lead", "accepted", false)).unwrap();
    let b = store.get_box("b").unwrap();
    assert!(!b.lead_guardians.iter().any(|g| g.id == "lead"));
    assert_eq!(b.guardians.len(), 4);
}

#[test]
fn test_update_existing_guardian() {
    let mut store = MemoryBoxStore::with_data(vec![sample_box("b", "o")]);
    let resp = update_guardian(&mut store, "b", "o", &guardian("pending", "accepted", false)).unwrap();
    assert_eq!(resp.guardians.len(), 3);
    assert_eq!(resp.guardians[1].status, "accepted");
    assert_eq!(
        update_guardian(&mut store, "b", "intruder", &guardian("x", "pending", false))
            .unwrap_err()
            .status_code(),
        401
    );
}

#[test]
fn test_add_new_document() {
    let mut store = MemoryBoxStore::with_data(vec![sample_box("b", "o")]);
    let doc = Document {
        id: "d1".to_string(),
        title: "T".to_string(),
        content: "C".to_string(),
        created_at: "2023-01-01T00:00:00Z".to_string(),
    };
    let resp = update_document(&mut store, "b", "o", &doc).unwrap();
    assert_eq!(resp.documents.len(), 1);
    let resp = update_document(&mut store, "b", "o", &Document { title: "T2".to_string(), ..doc }).unwrap();
    assert_eq!(resp.documents.len(), 1);
    assert_eq!(resp.documents[0].title, "T2");
}

#[test]
fn legacy_delete_box() {
    let mut store = MemoryBoxStore::with_data(vec![sample_box("b", "o")]);
    assert_eq!(delete_box(&mut store, "b", "x").unwrap_err().status_code(), 401);
    assert_eq!(delete_box(&mut store, "b", "o").unwrap().message, "Box deleted successfully.");
    assert_eq!(delete_box(&mut store, "b", "o").unwrap_err().status_code(), 404);
}

#[test]
fn legacy_guardian_views() {
    let boxes = vec![sample_box("b1", "o"), sample_box("b2", "o")];
    assert_eq!(get_guardian_boxes(&boxes, "lead").len(), 2);
    assert!(get_guardian_boxes(&boxes, "gone").is_empty());
    let gb = get_guardian_box(&boxes, "b1", "pending").unwrap();
    assert_eq!(gb.pending_guardian_approval, Some(true));
    assert!(!gb.is_lead_guardian);
    assert_eq!(gb.guardians_count, 3);
    match get_guardian_box(&boxes, "missing", "lead") {
        Err(AppError::Unauthorized(m)) => assert_eq!(m, "Unauthorized or Box not found"),
        other => panic!("unexpected {:?}", other),
    }
    let gb = convert_to_guardian_box(&boxes[0], "lead").unwrap();
    assert!(gb.is_lead_guardian);
}

#[test]
fn legacy_unlock_flow() {
    let mut boxes = vec![sample_box("b1", "o")];
    match request_unlock(&mut boxes, "b1", "pending", LeadGuardianUpdateRequest { message: "m".into() }) {
        Err(AppError::BadRequest(m)) => assert_eq!(m, "User is not a lead guardian for this box"),
        other => panic!("unexpected {:?}", other),
    }
    match request_unlock(&mut boxes, "zz", "lead", LeadGuardianUpdateRequest { message: "m".into() }) {
        Err(AppError::NotFound(m)) => assert_eq!(m, "Box not found"),
        other => panic!("unexpected {:?}", other),
    }
    let gb = request_unlock(&mut boxes, "b1", "lead", LeadGuardianUpdateRequest { message: "Please".into() })
        .unwrap();
    let u = gb.unlock_request.unwrap();
    assert_eq!(u.status, "pending");
    assert_eq!(u.message, Some("Please".to_string()));
    let gb = respond_to_unlock_request(
        &mut boxes,
        "b1",
        &"pending".to_string(),
        GuardianResponseRequest { approve: Some(true), reject: None },
    )
    .unwrap();
    assert_eq!(gb.unlock_request.unwrap().approved_by, vec!["pending".to_string()]);
    match respond_to_unlock_request(
        &mut boxes,
        "b1",
        &"gone".to_string(),
        GuardianResponseRequest { approve: Some(true), reject: None },
    ) {
        Err(AppError::Unauthorized(m)) => assert_eq!(m, "Not a guardian for this box"),
        other => panic!("unexpected {:?}", other),
    }
    match respond_to_unlock_request(
        &mut boxes,
        "b1",
        &"pending".to_string(),
        GuardianResponseRequest { approve: None, reject: Some(true) },
    ) {
        Err(AppError::BadRequest(m)) => {
            assert_eq!(m, "Guardian has already responded to this unlock request")
        },
        other => panic!("unexpected {:?}", other),
    }
    assert!(boxes[0].unlock_request.as_ref().unwrap().rejected_by.is_empty());
}

#[test]
fn loading_keeps_the_last_box_of_an_id() {
    let mut later = sample_box("b1", "o2");
    later.name = "Later".to_string();
    let store = MemoryBoxStore::with_data(vec![sample_box("b1", "o1"), sample_box("b2", "o1"), later]);
    assert_eq!(store.get_box("b1").unwrap().name, "Later");
    assert!(matches!(store.get_box("b3"), Err(AppError::NotFound(_))));
    let ids = |owner: &str| -> Vec<String> {
        store.get_boxes_by_owner(owner).unwrap().into_iter().map(|b| b.id).collect()
    };
    assert_eq!(ids("o1"), vec!["b2".to_string()]);
    assert_eq!(ids("o2"), vec!["b1".to_string()]);
}
