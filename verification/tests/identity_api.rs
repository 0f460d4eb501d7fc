use keygate::identity::{ApiError, Filter, Identity as IdentityApi, SortBy, SortOrder};
use keygate::models::{CreateIdentity, Identity, IdentityEmail, UserIdentifier};
use keygate::storage::MemStorage;

fn valid_request() -> CreateIdentity {
    CreateIdentity {
        username: Some("alice".to_string()),
        primary_email: Some("a@x.com".to_string()),
        password_hash: Some("$somehash0000".to_string()),
    }
}

#[test]
fn created_identity_round_trips_by_id_username_and_email() {
    let mut api = IdentityApi::new(MemStorage::new());
    let created = api.create_with(valid_request(), "id-1".to_string(), 42).expect("create");
    assert_eq!(created.id, "id-1");
    let by_id = api
        .get(UserIdentifier::Id("id-1".to_string()))
        .expect("lookup should not fail")
        .expect("identity should be found by id");
    let by_username = api
        .get(UserIdentifier::Username("alice".to_string()))
        .expect("lookup should not fail")
        .expect("identity should be found by username");
    let by_email = api
        .get(UserIdentifier::Email("a@x.com".to_string()))
        .expect("lookup should not fail")
        .expect("identity should be found by email");
    for found in [by_id, by_username, by_email] {
        assert_eq!(found.id, created.id);
        assert_eq!(found.username, created.username);
        assert_eq!(found.first_name, created.first_name);
        assert_eq!(found.last_name, created.last_name);
        assert_eq!(found.emails, created.emails);
        assert_eq!(found.linked_accounts, created.linked_accounts);
        assert_eq!(found.password_hash, created.password_hash);
        assert_eq!(found.created_at, created.created_at);
        assert_eq!(found.updated_at, created.updated_at);
    }
}

#[test]
fn create_fills_record_from_request() {
    let mut api = IdentityApi::new(MemStorage::new());
    let created = api.create_with(valid_request(), "id-1".to_string(), 42).expect("create");
    assert_eq!(created.username.as_deref(), Some("alice"));
    assert_eq!(
        created.emails,
        vec![("a@x.com".to_string(), IdentityEmail { verified: false, verified_at: None })]
    );
    assert_eq!(created.password_hash.as_deref(), Some("$somehash0000"));
    assert_eq!(created.created_at, 42);
    assert_eq!(created.updated_at, 42);
}

#[test]
fn create_rejects_malformed_fields() {
    let mut api = IdentityApi::new(MemStorage::new());
    let mut missing_username = valid_request();
    missing_username.username = None;
    assert!(matches!(
        api.create_with(missing_username, "id-1".to_string(), 0),
        Err(ApiError::InvalidArgument(_))
    ));
    let mut bad_email = valid_request();
    bad_email.primary_email = Some("not-an-email".to_string());
    assert!(matches!(
        api.create_with(bad_email, "id-1".to_string(), 0),
        Err(ApiError::InvalidArgument(_))
    ));
    let mut short_hash = valid_request();
    short_hash.password_hash = Some("short".to_string());
    assert!(matches!(
        api.create_with(short_hash, "id-1".to_string(), 0),
        Err(ApiError::InvalidArgument(_))
    ));
    assert!(api.get(UserIdentifier::Id("id-1".to_string())).unwrap().is_none());
}

#[test]
fn create_rejects_duplicates() {
    let mut api = IdentityApi::new(MemStorage::new());
    api.create_with(valid_request(), "id-1".to_string(), 0).expect("first create");
    let mut same_username = valid_request();
    same_username.primary_email = Some("b@x.com".to_string());
    assert!(matches!(
        api.create_with(same_username, "id-2".to_string(), 0),
        Err(ApiError::AlreadyExists(_))
    ));
    let mut same_email = valid_request();
    same_email.username = Some("bob".to_string());
    assert!(matches!(
        api.create_with(same_email, "id-3".to_string(), 0),
        Err(ApiError::AlreadyExists(_))
    ));
}

#[test]
fn user_exists_distinguishes_email_from_username() {
    let mut api = IdentityApi::new(MemStorage::new());
    api.create_with(valid_request(), "id-1".to_string(), 0).expect("create");
    assert!(api.user_exists("alice").expect("lookup"));
    assert!(api.user_exists("a@x.com").expect("lookup"));
    assert!(!api.user_exists("bob").expect("lookup"));
    assert!(!api.user_exists("b@x.com").expect("lookup"));
    assert!(!api.user_exists("alice@y.com").expect("lookup"));
}

#[test]
fn update_applies_transform_and_stamps_instant() {
    let mut api = IdentityApi::new(MemStorage::new());
    api.create_with(valid_request(), "id-1".to_string(), 0).expect("create");
    let updated = api
        .update_with(
            |mut ident: Identity| {
                ident.first_name = Some("Alice".to_string());
                ident
            },
            "id-1",
            99,
        )
        .expect("update should succeed");
    assert_eq!(updated.first_name.as_deref(), Some("Alice"));
    assert_eq!(updated.updated_at, 99);
    let stored = api
        .get(UserIdentifier::Id("id-1".to_string()))
        .unwrap()
        .expect("identity should still exist");
    assert_eq!(stored.first_name.as_deref(), Some("Alice"));
    assert_eq!(stored.updated_at, 99);
}

#[test]
fn update_rejects_dropping_the_username() {
    let mut api = IdentityApi::new(MemStorage::new());
    api.create_with(valid_request(), "id-1".to_string(), 0).expect("create");
    let result = api.update_with(
        |mut ident: Identity| {
            ident.username = None;
            ident
        },
        "id-1",
        99,
    );
    assert!(matches!(result, Err(ApiError::InvalidArgument(_))));
}

#[test]
fn update_of_missing_identity_reports_not_found() {
    let mut api = IdentityApi::new(MemStorage::new());
    let result = api.update_with(|ident: Identity| ident, "nope", 99);
    assert!(matches!(result, Err(ApiError::NotFound(_))));
}

#[test]
fn update_in_place_rejects_id_change_and_writes_nothing() {
    let mut api = IdentityApi::new(MemStorage::new());
    api.create_with(valid_request(), "id-1".to_string(), 7).expect("create");
    let result = api.update_in_place(
        |mut ident: Identity| {
            ident.id = "id-2".to_string();
            Some(ident)
        },
        "id-1",
    );
    assert!(matches!(result, Err(ApiError::InvalidArgument(_))));
    let stored = api
        .get(UserIdentifier::Id("id-1".to_string()))
        .unwrap()
        .expect("identity should be unchanged");
    assert_eq!(stored.id, "id-1");
    assert_eq!(stored.updated_at, 7);
    assert!(api.get(UserIdentifier::Id("id-2".to_string())).unwrap().is_none());
}

#[test]
fn update_in_place_absent_result_leaves_storage_unchanged() {
    let mut api = IdentityApi::new(MemStorage::new());
    api.create_with(valid_request(), "id-1".to_string(), 7).expect("create");
    let result = api.update_in_place(|_ident: Identity| None, "id-1");
    assert!(matches!(result, Ok(None)));
    let stored = api
        .get(UserIdentifier::Id("id-1".to_string()))
        .unwrap()
        .expect("identity should be unchanged");
    assert_eq!(stored.updated_at, 7);
}

#[test]
fn update_in_place_persists_the_returned_record() {
    let mut api = IdentityApi::new(MemStorage::new());
    api.create_with(valid_request(), "id-1".to_string(), 7).expect("create");
    let updated = api
        .update_in_place(
            |mut ident: Identity| {
                ident.last_name = Some("Liddell".to_string());
                Some(ident)
            },
            "id-1",
        )
        .expect("update should succeed")
        .expect("record should be returned");
    assert_eq!(updated.last_name.as_deref(), Some("Liddell"));
    let stored = api.get(UserIdentifier::Id("id-1".to_string())).unwrap().unwrap();
    assert_eq!(stored.last_name.as_deref(), Some("Liddell"));
}

#[test]
fn list_selects_by_exact_username_or_email() {
    let mut api = IdentityApi::new(MemStorage::new());
    api.create_with(valid_request(), "id-1".to_string(), 0).expect("create");
    let by_username = api
        .list(
            Filter { field: "username".to_string(), value: "alice".to_string() },
            SortBy::CreatedAt,
            SortOrder::Asc,
            0,
            10,
        )
        .expect("list should succeed");
    assert_eq!(by_username.len(), 1);
    assert_eq!(by_username[0].id, "id-1");
    let by_email = api
        .list(
            Filter { field: "primary_email".to_string(), value: "a@x.com".to_string() },
            SortBy::Email,
            SortOrder::Desc,
            0,
            10,
        )
        .expect("list should succeed");
    assert_eq!(by_email.len(), 1);
    let unknown_field = api
        .list(
            Filter { field: "id".to_string(), value: "id-1".to_string() },
            SortBy::Username,
            SortOrder::Asc,
            0,
            10,
        )
        .expect("list should succeed");
    assert!(unknown_field.is_empty());
    let skipped = api
        .list(
            Filter { field: "username".to_string(), value: "alice".to_string() },
            SortBy::CreatedAt,
            SortOrder::Asc,
            1,
            10,
        )
        .expect("list should succeed");
    assert!(skipped.is_empty());
    let too_many = api.list(
        Filter { field: "username".to_string(), value: "alice".to_string() },
        SortBy::CreatedAt,
        SortOrder::Asc,
        0,
        101,
    );
    assert!(matches!(too_many, Err(ApiError::InvalidArgument(_))));
}

#[test]
fn delete_permanent_removes_and_ignores_missing() {
    let mut api = IdentityApi::new(MemStorage::new());
    api.create_with(valid_request(), "id-1".to_string(), 0).expect("create");
    api.delete_permanent("id-1").expect("delete should succeed");
    assert!(api.get(UserIdentifier::Id("id-1".to_string())).unwrap().is_none());
    api.delete_permanent("id-1").expect("deleting a missing record is ignored");
}

#[test]
fn update_to_a_taken_username_reports_duplicate_user_and_writes_nothing() {
    let mut api = IdentityApi::new(MemStorage::new());
    api.create_with(valid_request(), "id-1".to_string(), 0).expect("first create");
    let second = CreateIdentity {
        username: Some("bob11".to_string()),
        primary_email: Some("b@x.com".to_string()),
        password_hash: Some("$somehash0000".to_string()),
    };
    api.create_with(second, "id-2".to_string(), 0).expect("second create");
    let result = api.update_with(
        |mut ident: Identity| {
            ident.username = Some("alice".to_string());
            ident
        },
        "id-2",
        99,
    );
    assert!(matches!(result, Err(ApiError::AlreadyExists(_))));
    let stored = api
        .get(UserIdentifier::Id("id-2".to_string()))
        .unwrap()
        .expect("identity should be unchanged");
    assert_eq!(stored.username.as_deref(), Some("bob11"));
    assert_eq!(stored.updated_at, 0);
}
