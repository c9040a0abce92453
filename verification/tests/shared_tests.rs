use base64::engine::general_purpose::URL_SAFE_NO_PAD;
use base64::Engine;
use lockbox::shared::auth::{
    auth_decision, authenticated_user, bearer_header, bearer_token, is_public_path, jwt_payload,
    parsed_claims, payload_if_valid, split_chars, validated_payload, validated_user, AuthDecision,
    AuthorizationHeader, Claims,
};
use lockbox::shared::clock::{add_hours, format_rfc3339, is_before, parse_rfc3339, Instant};
use lockbox::shared::dynamo::{
    check_invitation_expiry, fill_invitation_times, filter_created_by, keep_unexpired,
    map_get_dynamo_error, map_operation_error,
};
use lockbox::shared::error::{map_dynamo_error, StoreError};
use lockbox::shared::ids::{new_uuid, random_id};
use lockbox::shared::mock_box_store::MockBoxStore;
use lockbox::shared::mock_invitation_store::MockInvitationStore;
use lockbox::shared::models::{
    BoxRecord, Guardian, GuardianStatus, Invitation, InvitationStatus, UnlockRequestStatus,
};
use lockbox::shared::store::{convert_to_guardian_box, BoxStore, InvitationStore};
use lockbox::shared::tables::{box_table_indexes, invitation_table_indexes, IndexKeyType};

fn guardian(id: &str, status: &str, lead: bool, invitation_id: &str) -> Guardian {
    Guardian {
        id: id.to_string(),
        name: format!("Guardian {}", id),
        lead_guardian: lead,
        status: status.to_string(),
        added_at: "2023-01-01T00:00:00Z".to_string(),
        invitation_id: invitation_id.to_string(),
    }
}

fn sample_box(id: &str, owner: &str, guardians: Vec<Guardian>) -> BoxRecord {
    BoxRecord {
        id: id.to_string(),
        name: "Test Box".to_string(),
        description: "Test Description".to_string(),
        is_locked: false,
        created_at: "2023-01-01T00:00:00Z".to_string(),
        updated_at: "2023-01-01T00:00:00Z".to_string(),
        owner_id: owner.to_string(),
        owner_name: Some("Owner".to_string()),
        documents: vec![],
        guardians,
        unlock_instructions: None,
        unlock_request: None,
        version: 0,
    }
}

fn invitation(id: &str, code: &str, creator: &str, expires_at: &str) -> Invitation {
    Invitation {
        id: id.to_string(),
        invite_code: code.to_string(),
        invited_name: "Test User".to_string(),
        box_id: "box-123".to_string(),
        created_at: "2023-01-01T00:00:00+00:00".to_string(),
        expires_at: expires_at.to_string(),
        opened: false,
        linked_user_id: None,
        creator_id: creator.to_string(),
    }
}

#[test]
fn status_names_round_trip() {
    for name in ["invited", "opened", "accepted", "rejected"] {
        let s = InvitationStatus::from_str(name).unwrap();
        assert_eq!(s.to_string(), name);
    }
    for name in ["invited", "viewed", "accepted", "rejected"] {
        let s = GuardianStatus::from_str(name).unwrap();
        assert_eq!(s.to_string(), name);
    }
    assert_eq!(UnlockRequestStatus::from_str("invited").unwrap(), UnlockRequestStatus::Requested);
    assert_eq!(UnlockRequestStatus::from_str("requested").unwrap().to_string(), "requested");
    assert_eq!(
        GuardianStatus::from_str("lead").unwrap_err(),
        "Unknown guardian status: lead"
    );
    assert_eq!(
        InvitationStatus::from_str("").unwrap_err(),
        "Unknown invitation status: "
    );
}

#[test]
fn store_error_messages() {
    assert_eq!(StoreError::NotFound("x".into()).to_string(), "Not found: x");
    assert_eq!(StoreError::InvitationExpired.to_string(), "Invitation expired");
    assert_eq!(
        StoreError::VersionConflict("v".into()).to_string(),
        "Version conflict: v"
    );
    match map_dynamo_error("get_item", "boom") {
        StoreError::InternalError(m) => assert_eq!(m, "DynamoDB get_item error: boom"),
        other => panic!("unexpected {:?}", other),
    }
    match map_get_dynamo_error(true, "missing table", "box-1") {
        StoreError::NotFound(m) => assert!(m.contains("box-1")),
        other => panic!("unexpected {:?}", other),
    }
    match map_operation_error("put_item", "denied") {
        StoreError::InternalError(m) => assert!(m.contains("denied")),
        other => panic!("unexpected {:?}", other),
    }
}

#[test]
fn test_mock_box_store() {
    let mut store = MockBoxStore::new();
    let b = sample_box("box-1", "owner-1", vec![guardian("g1", "accepted", true, "inv-1")]);
    let created = store.create_box(b.clone()).unwrap();
    assert_eq!(created.id, "box-1");

    let fetched = store.get_box("box-1").unwrap();
    assert_eq!(fetched.name, "Test Box");
    assert_eq!(fetched.owner_id, "owner-1");

    let owned = store.get_boxes_by_owner("owner-1").unwrap();
    assert_eq!(owned.len(), 1);
    assert!(store.get_boxes_by_owner("someone-else").unwrap().is_empty());

    let guarded = store.get_boxes_by_guardian_id("g1").unwrap();
    assert_eq!(guarded.len(), 1);

    let mut changed = fetched.clone();
    changed.name = "Renamed".to_string();
    let updated = store.update_box(changed).unwrap();
    assert_eq!(updated.name, "Renamed");
    assert_eq!(updated.version, 1);
    assert_eq!(store.get_box("box-1").unwrap().name, "Renamed");

    // An update from the stale version is refused.
    let stale = fetched;
    match store.update_box(stale) {
        Err(StoreError::VersionConflict(m)) => {
            assert_eq!(m, "Box update conflict: expected version 1, got 0")
        }
        other => panic!("expected a version conflict, got {:?}", other),
    }

    store.delete_box("box-1").unwrap();
    match store.get_box("box-1") {
        Err(StoreError::NotFound(m)) => assert_eq!(m, "Box with id box-1 not found"),
        other => panic!("expected not found, got {:?}", other),
    }
}

#[test]
fn mock_box_store_with_data_and_rejected_guardians() {
    let store = MockBoxStore::with_data(vec![
        sample_box("a", "o", vec![guardian("g", "rejected", false, "i1")]),
        sample_box("b", "o", vec![guardian("g", "accepted", false, "i2")]),
    ]);
    let guarded = store.get_boxes_by_guardian_id("g").unwrap();
    assert_eq!(guarded.len(), 1);
    assert_eq!(guarded[0].id, "b");
    assert_eq!(store.get_boxes_by_owner("o").unwrap().len(), 2);
}

#[test]
fn test_mock_invitation_store() {
    let mut store = MockInvitationStore::new();
    let inv = invitation("inv-1", "CODE1", "creator", "2999-01-01T00:00:00+00:00");
    let saved = store.create_invitation(inv.clone()).unwrap();
    assert_eq!(saved.id, "inv-1");
    assert_eq!(store.get_invitation("inv-1").unwrap().invite_code, "CODE1");
    assert_eq!(store.get_invitation_by_code("CODE1").unwrap().id, "inv-1");
    match store.get_invitation_by_code("NOPE") {
        Err(StoreError::NotFound(m)) => assert_eq!(m, "Invitation not found with code: NOPE"),
        other => panic!("unexpected {:?}", other),
    }
    assert_eq!(store.get_invitations_by_box_id("box-123").unwrap().len(), 1);
    assert_eq!(store.get_invitations_by_creator_id("creator").unwrap().len(), 1);
    assert!(store.get_invitations_by_creator_id("other").unwrap().is_empty());

    let mut opened = saved.clone();
    opened.opened = true;
    opened.invite_code = "CODE2".to_string();
    store.update_invitation(opened).unwrap();
    assert!(store.get_invitation("inv-1").unwrap().opened);
    assert_eq!(store.get_invitation_by_code("CODE2").unwrap().id, "inv-1");

    store.delete_invitation("inv-1").unwrap();
    match store.get_invitation("inv-1") {
        Err(StoreError::NotFound(m)) => assert_eq!(m, "Invitation not found: inv-1"),
        other => panic!("unexpected {:?}", other),
    }
}

#[test]
fn mock_invitation_store_expiry_and_failure() {
    let mut store = MockInvitationStore::new_with_expiry();
    store
        .create_invitation(invitation("old", "EXPIRED", "c", "2000-01-01T00:00:00+00:00"))
        .unwrap();
    assert!(matches!(
        store.get_invitation_by_code("EXPIRED"),
        Err(StoreError::InvitationExpired)
    ));

    let failing = MockInvitationStore::new_error();
    match failing.get_invitations_by_creator_id("c") {
        Err(StoreError::InternalError(m)) => assert_eq!(m, "Mock store failure"),
        other => panic!("unexpected {:?}", other),
    }
}

#[test]
fn test_convert_to_guardian_box() {
    let b = sample_box(
        "box",
        "owner",
        vec![
            guardian("lead", "accepted", true, "i1"),
            guardian("pending", "pending", false, "i2"),
            guardian("gone", "rejected", false, "i3"),
        ],
    );
    let gb = convert_to_guardian_box(&b, "lead").unwrap();
    assert!(gb.is_lead_guardian);
    assert_eq!(gb.pending_guardian_approval, Some(false));
    assert_eq!(gb.guardians_count, 3);
    let gb = convert_to_guardian_box(&b, "pending").unwrap();
    assert!(!gb.is_lead_guardian);
    assert_eq!(gb.pending_guardian_approval, Some(true));
    assert!(convert_to_guardian_box(&b, "gone").is_none());
    assert!(convert_to_guardian_box(&b, "stranger").is_none());
}

#[test]
fn clock_formats_and_reads_back() {
    let t = Instant { secs: 1_700_000_000, nanos: 5 };
    let s = format_rfc3339(&t).unwrap();
    assert_eq!(parse_rfc3339(&s), Some(t));
    let later = add_hours(&t, 48).unwrap();
    assert_eq!(later.secs, 1_700_000_000 + 48 * 3600);
    assert!(is_before(&t, &later));
    assert!(!is_before(&later, &t));
    assert_eq!(add_hours(&Instant { secs: i64::MAX, nanos: 0 }, 1), None);
    assert_eq!(parse_rfc3339("not a time"), None);
    assert_eq!(
        parse_rfc3339("1970-01-01T00:00:10+00:00"),
        Some(Instant { secs: 10, nanos: 0 })
    );
}

#[test]
fn invitation_expiry_checks() {
    let now = Instant { secs: 1_700_000_000, nanos: 0 };
    let fresh = invitation("a", "A", "c", "2999-01-01T00:00:00+00:00");
    let old = invitation("b", "B", "c", "2000-01-01T00:00:00+00:00");
    let broken = invitation("c", "C", "c", "yesterday");
    assert!(check_invitation_expiry(fresh.clone(), &now).is_ok());
    assert!(matches!(
        check_invitation_expiry(old.clone(), &now),
        Err(StoreError::InvitationExpired)
    ));
    match check_invitation_expiry(broken.clone(), &now) {
        Err(StoreError::InternalError(m)) => assert_eq!(m, "Invalid expiration date format"),
        other => panic!("unexpected {:?}", other),
    }
    let kept = keep_unexpired(vec![fresh.clone(), old.clone()], &now).unwrap();
    assert_eq!(kept.len(), 1);
    assert_eq!(kept[0].id, "a");
    let mine = filter_created_by(&vec![fresh, old, broken], "c");
    assert_eq!(mine.len(), 3);
}

#[test]
fn fill_invitation_times_sets_48_hour_expiry() {
    let now = Instant { secs: 1_700_000_000, nanos: 0 };
    let mut inv = invitation("a", "A", "c", "");
    inv.created_at = String::new();
    let filled = fill_invitation_times(inv, &now);
    let created = parse_rfc3339(&filled.created_at).unwrap();
    let expires = parse_rfc3339(&filled.expires_at).unwrap();
    assert_eq!(created, now);
    assert_eq!(expires.secs - created.secs, 48 * 3600);
}

#[test]
fn ids_have_expected_shape() {
    let id = new_uuid();
    assert_eq!(id.len(), 36);
    let cs: Vec<char> = id.chars().collect();
    for (i, c) in cs.iter().enumerate() {
        if [8, 13, 18, 23].contains(&i) {
            assert_eq!(*c, '-');
        } else {
            assert!(c.is_ascii_digit() || ('a'..='f').contains(c));
        }
    }
    assert_eq!(cs[14], '4');
    assert!(['8', '9', 'a', 'b'].contains(&cs[19]));
    let alphabet: Vec<char> = ('A'..='Z').collect();
    let code = random_id(&alphabet, 8);
    assert_eq!(code.chars().count(), 8);
    assert!(code.chars().all(|c| c.is_ascii_uppercase()));
}

#[test]
fn split_matches_str_split() {
    for s in ["a.b.c", "", ".", "a..b", "no-dots", ".x."] {
        let expected: Vec<String> = s.split('.').map(|p| p.to_string()).collect();
        assert_eq!(split_chars(s, '.'), expected);
    }
}

#[test]
fn jwt_payload_decodes_middle_part() {
    let payload = br#"{"sub":"user-1"}"#;
    let token = format!("header.{}.signature", URL_SAFE_NO_PAD.encode(payload));
    assert_eq!(jwt_payload(&token).unwrap(), payload.to_vec());

    match jwt_payload("only.two") {
        Err(StoreError::AuthError(m)) => assert_eq!(m, "Invalid JWT format"),
        other => panic!("unexpected {:?}", other),
    }
    match jwt_payload("a.!!!.c") {
        Err(StoreError::AuthError(m)) => assert_eq!(m, "Could not decode JWT payload"),
        other => panic!("unexpected {:?}", other),
    }
    match parsed_claims(None) {
        Err(StoreError::AuthError(m)) => assert_eq!(m, "Could not parse JWT claims"),
        other => panic!("unexpected {:?}", other),
    }
}

fn claims(sub: &str) -> Claims {
    Claims {
        sub: sub.to_string(),
        email_verified: Some(true),
        iss: "issuer".to_string(),
        cognito_username: None,
        origin_jti: None,
        aud: "aud".to_string(),
        event_id: None,
        token_use: None,
        auth_time: None,
        exp: 2,
        iat: 1,
        jti: None,
        email: None,
    }
}

#[test]
fn test_auth_middleware_missing_header() {
    match auth_decision("/boxes/owned", true, &AuthorizationHeader::Missing) {
        AuthDecision::Reject(m) => assert_eq!(m, "Missing authorization header"),
        _ => panic!("expected a rejection"),
    }
    match auth_decision("/boxes/owned", false, &AuthorizationHeader::Unreadable) {
        AuthDecision::Reject(m) => assert_eq!(m, "Invalid authorization header format"),
        _ => panic!("expected a rejection"),
    }
    match auth_decision("/x", true, &AuthorizationHeader::Text("Basic abc".to_string())) {
        AuthDecision::Reject(m) => {
            assert_eq!(m, "Invalid authorization format. Expected 'Bearer <token>'")
        }
        _ => panic!("expected a rejection"),
    }
}

#[test]
fn test_auth_middleware_invalid_token() {
    let token = match auth_decision(
        "/",
        true,
        &AuthorizationHeader::Text("Bearer invalid.token.format".to_string()),
    ) {
        AuthDecision::Decode(t) => t,
        _ => panic!("expected a token to decode"),
    };
    assert_eq!(token, "invalid.token.format");
    // The payload decodes as base64 but is not JSON claims.
    let decoded = jwt_payload(&token).map(|_| ()).and_then(|_| parsed_claims(None));
    assert_eq!(authenticated_user(decoded).unwrap_err(), "Could not decode JWT payload");
}

#[test]
fn test_auth_middleware_jwt_token() {
    let (name, value) = bearer_header("a.b.c");
    assert_eq!(name, "authorization");
    assert_eq!(value, "Bearer a.b.c");
    assert_eq!(bearer_token(&value), Some("a.b.c".to_string()));
    match auth_decision("/", true, &AuthorizationHeader::Text(value)) {
        AuthDecision::Decode(t) => assert_eq!(t, "a.b.c"),
        _ => panic!("expected a token to decode"),
    }
    let user = authenticated_user(parsed_claims(Some(claims("56a20244-0061-708a-0441-62c42ace7b39"))));
    assert_eq!(user.unwrap(), "56a20244-0061-708a-0441-62c42ace7b39");
}

#[test]
fn public_paths_pass_without_header() {
    assert!(is_public_path("/health", false));
    assert!(is_public_path("/prod/health", true));
    assert!(is_public_path("/invitations/ABC", true));
    assert!(!is_public_path("/invitations/ABC/refresh", false));
    assert!(!is_public_path("/boxes", true));
    assert!(matches!(
        auth_decision("/health", false, &AuthorizationHeader::Missing),
        AuthDecision::Pass
    ));
    assert_eq!(bearer_token("Bearer "), Some(String::new()));
    assert_eq!(bearer_token("bearer x"), None);
}

fn signed_token(sub: &str, exp: u64, secret: &[u8]) -> String {
    let mut claims = serde_json::Map::new();
    claims.insert("sub".to_string(), serde_json::Value::from(sub));
    claims.insert("exp".to_string(), serde_json::Value::from(exp));
    claims.insert("iat".to_string(), serde_json::Value::from(1_700_000_000u64));
    claims.insert("cognito:username".to_string(), serde_json::Value::from(sub));
    jsonwebtoken::encode(
        &jsonwebtoken::Header::default(),
        &serde_json::Value::Object(claims),
        &jsonwebtoken::EncodingKey::from_secret(secret),
    )
    .unwrap()
}

#[test]
fn validated_tokens_give_their_payload() {
    let key = b"dev_key".to_vec();
    let token = signed_token("user-1", 32_503_680_000, &key);
    let payload = validated_payload(&token, &key).unwrap();
    assert_eq!(payload, jwt_payload(&token).unwrap());
    let claims: serde_json::Value = serde_json::from_slice(&payload).unwrap();
    assert_eq!(claims["sub"], "user-1");
    // Another key, or an expired token, is refused.
    assert_eq!(validated_payload(&token, &b"other_key".to_vec()), Err(401));
    let expired = signed_token("user-1", 1_000_000, &key);
    assert_eq!(validated_payload(&expired, &key), Err(401));
    assert_eq!(validated_payload("not a token", &key), Err(401));
}

#[test]
fn payload_only_for_valid_tokens() {
    let token = signed_token("user-2", 32_503_680_000, b"k");
    assert_eq!(payload_if_valid(false, &token), Err(401));
    assert_eq!(payload_if_valid(true, &token), Ok(jwt_payload(&token).unwrap()));
    assert_eq!(payload_if_valid(true, "a.%%%.c"), Err(401));
    assert_eq!(validated_user(Ok("user-2".to_string())), Ok("user-2".to_string()));
    assert_eq!(validated_user(Err(())), Err(401));
}

#[test]
fn update_moves_a_box_between_owner_listings() {
    let mut store = MockBoxStore::with_data(vec![
        sample_box("box-1", "owner-a", vec![]),
        sample_box("box-2", "owner-a", vec![]),
    ]);
    let ids = |store: &MockBoxStore, owner: &str| -> Vec<String> {
        store.get_boxes_by_owner(owner).unwrap().into_iter().map(|b| b.id).collect()
    };
    assert_eq!(ids(&store, "owner-a"), vec!["box-1".to_string(), "box-2".to_string()]);
    let mut moved = store.get_box("box-1").unwrap();
    moved.owner_id = "owner-b".to_string();
    let saved = store.update_box(moved).unwrap();
    assert_eq!(saved.version, 1);
    assert_eq!(store.get_box("box-1").unwrap().owner_id, "owner-b");
    assert_eq!(ids(&store, "owner-a"), vec!["box-2".to_string()]);
    assert_eq!(ids(&store, "owner-b"), vec!["box-1".to_string()]);
    assert!(matches!(store.get_box("box-9"), Err(StoreError::NotFound(_))));
}

#[test]
fn table_indexes_are_partition_keyed() {
    let inv = invitation_table_indexes();
    let names: Vec<(&str, &str)> =
        inv.iter().map(|i| (i.name.as_str(), i.attribute.as_str())).collect();
    assert_eq!(
        names,
        vec![
            ("box_id-index", "box_id"),
            ("invite_code-index", "invite_code"),
            ("creator_id-index", "creator_id")
        ]
    );
    assert!(inv.iter().all(|i| i.key_type == IndexKeyType::Hash));
    let boxes = box_table_indexes();
    assert_eq!(boxes[0].name, "owner_id-index");
    assert_eq!(boxes[0].attribute, "ownerId");
    assert_eq!(boxes[0].key_type, IndexKeyType::Hash);
}
