use keygate::config::Configuration;
use keygate::models::{IdentityEmail, Process, ProcessPayload};
use keygate::signup::{Signup, SignupError};
use keygate::storage::MemStorage;

fn username_email_config() -> Configuration {
    let mut cfg = Configuration::default();
    cfg.identity.signup_with_email = true;
    cfg.identity.signup_require_username = true;
    cfg
}

fn init_alice(signup: &mut Signup, now: i64, process_id: &str) -> Process {
    signup
        .init_signup_process_with(
            Some("alice".to_string()),
            Some("a@x.com".to_string()),
            "dev1",
            now,
            process_id.to_string(),
        )
        .expect("init should succeed")
}

#[test]
fn init_sets_expiry_and_pending_state() {
    let mut signup = Signup::new(username_email_config(), MemStorage::new());
    let lifetime = signup.get_config().identity.signup_process_lifetime;
    let process = init_alice(&mut signup, 1_000, "p1");
    assert_eq!(process.created_at, 1_000);
    assert_eq!(process.expires_at, 1_000 + lifetime);
    assert!(process.completed_at.is_none());
}

#[test]
fn init_scenario_binds_payload_fields() {
    let mut signup = Signup::new(username_email_config(), MemStorage::new());
    let lifetime = signup.get_config().identity.signup_process_lifetime;
    let now = keygate::clock::now_timestamp();
    let process = init_alice(&mut signup, now, "p1");
    assert_eq!(process.expires_at, now + lifetime);
    match &process.payload {
        ProcessPayload::Signup(payload) => {
            assert_eq!(payload.device_id, "dev1");
            assert_eq!(payload.username.as_deref(), Some("alice"));
            let (address, state) = payload.email.as_ref().expect("email should be bound");
            assert_eq!(address, "a@x.com");
            assert_eq!(
                *state,
                IdentityEmail { verified: false, verified_at: None }
            );
        }
        ProcessPayload::Login(_) => panic!("expected a signup payload"),
    }
}

#[test]
fn finish_scenario_returns_identity_with_hash() {
    let mut signup = Signup::new(username_email_config(), MemStorage::new());
    let now = keygate::clock::now_timestamp();
    init_alice(&mut signup, now, "p1");
    let identity = signup
        .finish_signup_process("Sup3rSecret!", "p1", "dev1")
        .expect("finish should succeed");
    assert_eq!(identity.username.as_deref(), Some("alice"));
    assert_eq!(identity.emails.len(), 1);
    assert_eq!(identity.emails[0].0, "a@x.com");
    assert!(!identity.emails[0].1.verified);
    let hash = identity.password_hash.expect("hash should be set");
    assert_ne!(hash, "Sup3rSecret!");
    assert!(hash.starts_with('$'));
    assert_ne!(identity.id, "p1");
}

#[test]
fn finish_twice_reports_already_completed() {
    let mut signup = Signup::new(username_email_config(), MemStorage::new());
    let now = keygate::clock::now_timestamp();
    init_alice(&mut signup, now, "p1");
    signup
        .finish_signup_process("Sup3rSecret!", "p1", "dev1")
        .expect("first finish should succeed");
    let second = signup.finish_signup_process("Sup3rSecret!", "p1", "dev1");
    assert!(matches!(second, Err(SignupError::ProcessAlreadyCompleted)));
}

#[test]
fn finish_with_wrong_device_reports_invalid_device() {
    let mut signup = Signup::new(username_email_config(), MemStorage::new());
    let now = keygate::clock::now_timestamp();
    init_alice(&mut signup, now, "p1");
    let result = signup.finish_signup_process("Sup3rSecret!", "p1", "dev2");
    assert!(matches!(result, Err(SignupError::InvalidDeviceId)));
}

#[test]
fn finish_after_expiry_reports_expired() {
    let mut signup = Signup::new(username_email_config(), MemStorage::new());
    let lifetime = signup.get_config().identity.signup_process_lifetime;
    init_alice(&mut signup, 1_000, "p1");
    let late = 1_000 + lifetime + 1;
    let result = signup.finish_signup_process_with(
        "$somehash0000".to_string(),
        "p1",
        "dev1",
        late,
        "id-new".to_string(),
    );
    assert!(matches!(result, Err(SignupError::ProcessExpired)));
}

#[test]
fn finish_unknown_process_reports_not_found() {
    let mut signup = Signup::new(username_email_config(), MemStorage::new());
    let result = signup.finish_signup_process("Sup3rSecret!", "nope", "dev1");
    assert!(matches!(result, Err(SignupError::ProcessNotFound)));
}

#[test]
fn init_with_taken_email_reports_duplicate_user() {
    let mut storage = MemStorage::new();
    storage
        .create_identity(keygate::models::Identity {
            id: "id-existing".to_string(),
            username: Some("bob".to_string()),
            first_name: None,
            last_name: None,
            emails: vec![(
                "a@x.com".to_string(),
                IdentityEmail { verified: true, verified_at: Some(5) },
            )],
            linked_accounts: Vec::new(),
            password_hash: None,
            created_at: 0,
            updated_at: 0,
        })
        .expect("seeding the identity should succeed");
    let mut signup = Signup::new(username_email_config(), storage);
    let result = signup.init_signup_process_with(
        Some("alice".to_string()),
        Some("a@x.com".to_string()),
        "dev1",
        1_000,
        "p1".to_string(),
    );
    assert!(matches!(result, Err(SignupError::UserAlreadyExists)));
    let (_, storage) = signup.into_parts();
    assert!(storage.process_by_id("p1").is_none());
}

#[test]
fn init_with_taken_username_reports_duplicate_user() {
    let mut storage = MemStorage::new();
    storage
        .create_identity(keygate::models::Identity {
            id: "id-existing".to_string(),
            username: Some("alice".to_string()),
            first_name: None,
            last_name: None,
            emails: Vec::new(),
            linked_accounts: Vec::new(),
            password_hash: None,
            created_at: 0,
            updated_at: 0,
        })
        .expect("seeding the identity should succeed");
    let mut signup = Signup::new(username_email_config(), storage);
    let result = signup.init_signup_process_with(
        Some("alice".to_string()),
        Some("b@x.com".to_string()),
        "dev1",
        1_000,
        "p1".to_string(),
    );
    assert!(matches!(result, Err(SignupError::UserAlreadyExists)));
}

#[test]
fn init_without_required_email_reports_invalid_email() {
    let mut signup = Signup::new(username_email_config(), MemStorage::new());
    let result =
        signup.init_signup_process_with(Some("alice".to_string()), None, "dev1", 0, "p1".into());
    assert!(matches!(result, Err(SignupError::InvalidEmail)));
}

#[test]
fn init_without_required_username_reports_invalid_username() {
    let mut signup = Signup::new(username_email_config(), MemStorage::new());
    let result = signup.init_signup_process_with(
        None,
        Some("a@x.com".to_string()),
        "dev1",
        0,
        "p1".into(),
    );
    assert!(matches!(result, Err(SignupError::InvalidUsername)));
}

#[test]
fn init_with_malformed_device_id_is_rejected() {
    let mut signup = Signup::new(username_email_config(), MemStorage::new());
    let result = signup.init_signup_process_with(
        Some("alice".to_string()),
        Some("a@x.com".to_string()),
        "not a device id!",
        0,
        "p1".into(),
    );
    assert!(matches!(result, Err(SignupError::MalformedDeviceId)));
}

#[test]
fn init_near_overflow_reports_unknown() {
    let mut signup = Signup::new(username_email_config(), MemStorage::new());
    let result = signup.init_signup_process_with(
        Some("alice".to_string()),
        Some("a@x.com".to_string()),
        "dev1",
        i64::MAX - 1,
        "p1".into(),
    );
    assert!(matches!(result, Err(SignupError::Unknown)));
}

#[test]
fn completion_marks_the_stored_process() {
    let mut signup = Signup::new(username_email_config(), MemStorage::new());
    init_alice(&mut signup, 1_000, "p1");
    signup
        .finish_signup_process_with("$hash1234".to_string(), "p1", "dev1", 1_100, "id-a".into())
        .expect("finish should succeed");
    let stored = signup.storage().process_by_id("p1").expect("process should stay stored");
    assert_eq!(stored.completed_at, Some(1_100));
}

#[test]
fn finish_write_conflict_reports_duplicate_user_and_writes_nothing() {
    let mut signup = Signup::new(username_email_config(), MemStorage::new());
    init_alice(&mut signup, 1_000, "p1");
    init_alice(&mut signup, 1_000, "p2");
    signup
        .finish_signup_process_with("$hash1234".to_string(), "p1", "dev1", 1_100, "id-a".into())
        .expect("first finish should succeed");
    let result = signup.finish_signup_process_with(
        "$hash1234".to_string(),
        "p2",
        "dev1",
        1_200,
        "id-a".into(),
    );
    assert!(matches!(result, Err(SignupError::UserAlreadyExists)));
    let stored = signup.storage().process_by_id("p2").expect("process should stay stored");
    assert!(stored.completed_at.is_none());
}

#[test]
fn init_draws_a_fresh_opaque_process_id() {
    let mut signup = Signup::new(username_email_config(), MemStorage::new());
    let first = signup
        .init_signup_process(Some("alice".to_string()), Some("a@x.com".to_string()), "dev1")
        .expect("init should succeed");
    let second = signup
        .init_signup_process(Some("bob11".to_string()), Some("b@x.com".to_string()), "dev1")
        .expect("init should succeed");
    assert_eq!(first.id.chars().count(), 32);
    assert!(first.id.chars().all(|c| c.is_ascii_alphanumeric()));
    assert_ne!(first.id, second.id);
}
