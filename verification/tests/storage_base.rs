use keygate::storage::{BaseStorage, LogicStorageError, MemStorage, StorageError};

#[test]
fn get_of_missing_key_is_none() {
    let storage = MemStorage::new();
    assert!(storage._get_u8("k").expect("get should not fail").is_none());
}

#[test]
fn set_then_get_returns_the_bytes() {
    let mut storage = MemStorage::new();
    storage._set_u8("k", &[1, 2, 3]).expect("set should succeed");
    assert_eq!(storage._get_u8("k").unwrap(), Some(vec![1, 2, 3]));
}

#[test]
fn set_overwrites_an_existing_key() {
    let mut storage = MemStorage::new();
    storage._set_u8("k", &[1]).expect("set should succeed");
    storage._set_u8("k", &[2, 2]).expect("overwrite should succeed");
    assert_eq!(storage._get_u8("k").unwrap(), Some(vec![2, 2]));
}

#[test]
fn create_is_exclusive() {
    let mut storage = MemStorage::new();
    storage._create_u8("k", &[1]).expect("first create should succeed");
    let second = storage._create_u8("k", &[2]);
    match second {
        Err(StorageError::Storage(LogicStorageError::AlreadyExists(key))) => {
            assert_eq!(key, "k");
        }
        other => panic!("expected AlreadyExists, got {other:?}"),
    }
    assert_eq!(storage._get_u8("k").unwrap(), Some(vec![1]));
}

#[test]
fn delete_of_missing_key_reports_not_found() {
    let mut storage = MemStorage::new();
    let result = storage._del("k");
    match result {
        Err(StorageError::Storage(LogicStorageError::NotFound(key))) => {
            assert_eq!(key, "k");
        }
        other => panic!("expected NotFound, got {other:?}"),
    }
}

#[test]
fn delete_removes_the_key() {
    let mut storage = MemStorage::new();
    storage._set_u8("k", &[9]).expect("set should succeed");
    storage._del("k").expect("delete should succeed");
    assert!(!storage.key_exists("k").expect("exists should not fail"));
}

#[test]
fn namespaces_keep_keys_apart() {
    let mut storage = MemStorage::new();
    storage._pset_u8("ns1", "k", &[1]).expect("set should succeed");
    storage._pset_u8("ns2", "k", &[2]).expect("set should succeed");
    assert_eq!(storage._pget_u8("ns1", "k").unwrap(), Some(vec![1]));
    assert_eq!(storage._pget_u8("ns2", "k").unwrap(), Some(vec![2]));
    assert!(storage.pkey_exists("ns1", "k").unwrap());
    assert!(!storage.pkey_exists("ns3", "k").unwrap());
    storage._pdel("ns1", "k").expect("delete should succeed");
    assert!(!storage.pkey_exists("ns1", "k").unwrap());
    assert!(storage.pkey_exists("ns2", "k").unwrap());
}

#[test]
fn pcreate_is_exclusive_per_namespace() {
    let mut storage = MemStorage::new();
    storage._pcreate_u8("ns", "k", &[1]).expect("first create should succeed");
    assert!(storage._pcreate_u8("ns", "k", &[2]).is_err());
    storage._pcreate_u8("other", "k", &[3]).expect("other namespace is free");
}

#[test]
fn sessions_can_be_created_and_invalidated() {
    let mut storage = MemStorage::new();
    storage
        .create_session(keygate::models::Session {
            id: "s1".to_string(),
            identity_id: "id-1".to_string(),
            device_id: "dev1".to_string(),
            created_at: 5,
        })
        .expect("create session should succeed");
    let found = storage.session_by_id("s1").expect("session should be found");
    assert_eq!(found.identity_id, "id-1");
    assert_eq!(found.device_id, "dev1");
    assert_eq!(found.created_at, 5);
    storage.invalidate_session("s1").expect("invalidate should succeed");
    assert!(storage.session_by_id("s1").is_none());
}

#[test]
fn duplicate_session_id_is_rejected() {
    let mut storage = MemStorage::new();
    let session = keygate::models::Session {
        id: "s1".to_string(),
        identity_id: "id-1".to_string(),
        device_id: "dev1".to_string(),
        created_at: 5,
    };
    storage.create_session(session.clone()).expect("first create should succeed");
    assert!(storage.create_session(session).is_err());
}

#[test]
fn conditional_complete_succeeds_once() {
    let mut storage = MemStorage::new();
    storage
        .create_process(keygate::models::Process {
            id: "p1".to_string(),
            created_at: 0,
            expires_at: 100,
            completed_at: None,
            payload: keygate::models::ProcessPayload::Signup(keygate::models::SignupPayload {
                device_id: "dev1".to_string(),
                username: None,
                email: None,
            }),
        })
        .expect("create process should succeed");
    storage.complete_process("p1", 50).expect("first completion should succeed");
    let stored = storage.process_by_id("p1").expect("process should stay stored");
    assert_eq!(stored.completed_at, Some(50));
    let second = storage.complete_process("p1", 60);
    assert!(matches!(
        second,
        Err(StorageError::Storage(LogicStorageError::AlreadyExists(_)))
    ));
    let missing = storage.complete_process("p2", 60);
    assert!(matches!(
        missing,
        Err(StorageError::Storage(LogicStorageError::NotFound(_)))
    ));
}

#[test]
fn otp_failure_on_a_signup_process_reports_unknown() {
    let mut storage = MemStorage::new();
    storage
        .create_process(keygate::models::Process {
            id: "p1".to_string(),
            created_at: 0,
            expires_at: 100,
            completed_at: None,
            payload: keygate::models::ProcessPayload::Signup(keygate::models::SignupPayload {
                device_id: "dev1".to_string(),
                username: None,
                email: None,
            }),
        })
        .expect("create process should succeed");
    let result = storage.record_otp_failure("p1");
    assert!(matches!(
        result,
        Err(StorageError::Storage(LogicStorageError::Unknown))
    ));
}

#[test]
fn record_counts_reflect_the_collections() {
    let mut storage = MemStorage::new();
    let empty = storage.record_counts();
    assert_eq!(empty.kv, 0);
    assert_eq!(empty.identities, 0);
    assert_eq!(empty.processes, 0);
    assert_eq!(empty.sessions, 0);
    storage._set_u8("k", &[1]).expect("set should succeed");
    storage
        .create_session(keygate::models::Session {
            id: "s1".to_string(),
            identity_id: "id-1".to_string(),
            device_id: "dev1".to_string(),
            created_at: 5,
        })
        .expect("create session should succeed");
    let counts = storage.record_counts();
    assert_eq!(counts.kv, 1);
    assert_eq!(counts.sessions, 1);
}
