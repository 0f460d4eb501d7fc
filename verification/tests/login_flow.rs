use keygate::config::Configuration;
use keygate::login::{Login, LoginError};
use keygate::models::{IdentityEmail, LoginMethod, ProcessPayload, MAX_OTP_ATTEMPTS};
use keygate::storage::MemStorage;

fn seeded_storage(password_hash: Option<String>) -> MemStorage {
    let mut storage = MemStorage::new();
    storage
        .create_identity(keygate::models::Identity {
            id: "id-alice".to_string(),
            username: Some("alice".to_string()),
            first_name: None,
            last_name: None,
            emails: vec![(
                "a@x.com".to_string(),
                IdentityEmail { verified: true, verified_at: Some(1) },
            )],
            linked_accounts: Vec::new(),
            password_hash,
            created_at: 0,
            updated_at: 0,
        })
        .expect("seeding the identity should succeed");
    storage
}

fn engine_with_password(raw_password: &str) -> Login {
    let hash = keygate::hash::password(raw_password).expect("hashing should succeed");
    Login::new(Configuration::default(), seeded_storage(Some(hash)))
}

fn init_flow(login: &mut Login, method: LoginMethod, now: i64) {
    login
        .login_init_flow_with(
            "alice",
            "dev1",
            method,
            now,
            "f1".to_string(),
            "code-123".to_string(),
            "token-456".to_string(),
        )
        .expect("login init should succeed");
}

#[test]
fn init_builds_pending_login_process() {
    let mut login = Login::new(Configuration::default(), MemStorage::new());
    let lifetime = 60 * 60;
    let process = login
        .login_init_flow_with(
            "alice",
            "dev1",
            LoginMethod::Otp,
            1_000,
            "f1".to_string(),
            "code-123".to_string(),
            "token-456".to_string(),
        )
        .expect("login init should succeed");
    assert_eq!(process.created_at, 1_000);
    assert_eq!(process.expires_at, 1_000 + lifetime);
    assert!(process.completed_at.is_none());
    match &process.payload {
        ProcessPayload::Login(payload) => {
            assert_eq!(payload.device_id, "dev1");
            assert_eq!(payload.identifier, "alice");
            assert_eq!(payload.method, LoginMethod::Otp);
            assert_eq!(payload.otp_code.as_deref(), Some("code-123"));
            assert!(payload.magic_token.is_none());
            assert_eq!(payload.otp_attempts, 0);
        }
        ProcessPayload::Signup(_) => panic!("expected a login payload"),
    }
}

#[test]
fn get_flow_checks_device_binding() {
    let mut login = Login::new(Configuration::default(), MemStorage::new());
    init_flow(&mut login, LoginMethod::Password, 1_000);
    let found = login.login_get_flow("dev1", "f1").expect("flow should be found");
    assert_eq!(found.id, "f1");
    let wrong_device = login.login_get_flow("dev2", "f1");
    assert!(matches!(wrong_device, Err(LoginError::InvalidDeviceId)));
    let missing = login.login_get_flow("dev1", "nope");
    assert!(matches!(missing, Err(LoginError::ProcessNotFound)));
}

#[test]
fn password_login_round_trip() {
    let mut login = engine_with_password("Sup3rSecret!");
    init_flow(&mut login, LoginMethod::Password, 1_000);
    let session = login
        .login_submit_password_at("f1", "dev1", "Sup3rSecret!", 1_100, "s1".to_string())
        .expect("password login should succeed");
    assert_eq!(session.id, "s1");
    assert_eq!(session.identity_id, "id-alice");
    assert_eq!(session.device_id, "dev1");
    assert_eq!(session.created_at, 1_100);
    let stored = login.storage().session_by_id("s1").expect("session should be stored");
    assert_eq!(stored.identity_id, "id-alice");
}

#[test]
fn wrong_password_reports_invalid_credentials() {
    let mut login = engine_with_password("Sup3rSecret!");
    init_flow(&mut login, LoginMethod::Password, 1_000);
    let result = login.login_submit_password_at("f1", "dev1", "wrong", 1_100, "s1".to_string());
    assert!(matches!(result, Err(LoginError::InvalidCredentials)));
    assert!(login.storage().session_by_id("s1").is_none());
}

#[test]
fn password_login_for_unknown_user_reports_invalid_credentials() {
    let mut login = Login::new(Configuration::default(), MemStorage::new());
    init_flow(&mut login, LoginMethod::Password, 1_000);
    let result = login.login_submit_password_at("f1", "dev1", "pw", 1_100, "s1".to_string());
    assert!(matches!(result, Err(LoginError::InvalidCredentials)));
}

#[test]
fn completed_flow_rejects_second_completion() {
    let mut login = engine_with_password("Sup3rSecret!");
    init_flow(&mut login, LoginMethod::Password, 1_000);
    login
        .login_submit_password_at("f1", "dev1", "Sup3rSecret!", 1_100, "s1".to_string())
        .expect("first completion should succeed");
    let second =
        login.login_submit_password_at("f1", "dev1", "Sup3rSecret!", 1_200, "s2".to_string());
    assert!(matches!(second, Err(LoginError::ProcessAlreadyCompleted)));
}

#[test]
fn expired_flow_rejects_completion() {
    let mut login = engine_with_password("Sup3rSecret!");
    init_flow(&mut login, LoginMethod::Password, 1_000);
    let late = 1_000 + 60 * 60 + 1;
    let result =
        login.login_submit_password_at("f1", "dev1", "Sup3rSecret!", late, "s1".to_string());
    assert!(matches!(result, Err(LoginError::ProcessExpired)));
}

#[test]
fn submit_with_wrong_method_reports_method_not_allowed() {
    let mut login = engine_with_password("Sup3rSecret!");
    init_flow(&mut login, LoginMethod::Otp, 1_000);
    let result =
        login.login_submit_password_at("f1", "dev1", "Sup3rSecret!", 1_100, "s1".to_string());
    assert!(matches!(result, Err(LoginError::MethodNotAllowed)));
}

#[test]
fn magic_link_round_trip_and_wrong_token() {
    let mut login = Login::new(Configuration::default(), seeded_storage(None));
    init_flow(&mut login, LoginMethod::MagicLink, 1_000);
    let wrong = login.login_submit_magic_link_at("f1", "dev1", "bogus", 1_050, "s0".to_string());
    assert!(matches!(wrong, Err(LoginError::InvalidCredentials)));
    let session = login
        .login_submit_magic_link_at("f1", "dev1", "token-456", 1_100, "s1".to_string())
        .expect("magic-link login should succeed");
    assert_eq!(session.identity_id, "id-alice");
    let replay =
        login.login_submit_magic_link_at("f1", "dev1", "token-456", 1_200, "s2".to_string());
    assert!(matches!(replay, Err(LoginError::ProcessAlreadyCompleted)));
}

#[test]
fn otp_round_trip() {
    let mut login = Login::new(Configuration::default(), seeded_storage(None));
    init_flow(&mut login, LoginMethod::Otp, 1_000);
    let session = login
        .login_submit_otp_at("f1", "dev1", "code-123", 1_100, "s1".to_string())
        .expect("otp login should succeed");
    assert_eq!(session.identity_id, "id-alice");
}

#[test]
fn otp_attempts_are_bounded_and_exhaustion_is_permanent() {
    let mut login = Login::new(Configuration::default(), seeded_storage(None));
    init_flow(&mut login, LoginMethod::Otp, 1_000);
    for attempt in 0..MAX_OTP_ATTEMPTS {
        let result = login.login_submit_otp_at(
            "f1",
            "dev1",
            "wrong",
            1_100 + attempt as i64,
            format!("s{attempt}"),
        );
        assert!(matches!(result, Err(LoginError::InvalidCredentials)));
    }
    let exhausted = login.login_submit_otp_at("f1", "dev1", "code-123", 1_200, "sx".to_string());
    assert!(matches!(exhausted, Err(LoginError::OtpAttemptsExceeded)));
}

#[test]
fn login_init_with_malformed_device_id_is_rejected() {
    let mut login = Login::new(Configuration::default(), MemStorage::new());
    let result = login.login_init_flow_with(
        "alice",
        "bad device!",
        LoginMethod::Password,
        0,
        "f1".to_string(),
        "c".to_string(),
        "t".to_string(),
    );
    assert!(matches!(result, Err(LoginError::MalformedDeviceId)));
}

#[test]
fn init_with_disabled_email_login_reports_method_not_allowed() {
    let mut cfg = Configuration::default();
    cfg.identity.login_with_email = false;
    let mut login = Login::new(cfg, MemStorage::new());
    let result = login.login_init_flow_with(
        "a@x.com",
        "dev1",
        LoginMethod::Password,
        0,
        "f1".to_string(),
        "c".to_string(),
        "t".to_string(),
    );
    assert!(matches!(result, Err(LoginError::MethodNotAllowed)));
}

#[test]
fn login_by_email_identifier_finds_the_identity() {
    let hash = keygate::hash::password("pw12345678").expect("hashing should succeed");
    let mut login = Login::new(Configuration::default(), seeded_storage(Some(hash)));
    login
        .login_init_flow_with(
            "a@x.com",
            "dev1",
            LoginMethod::Password,
            1_000,
            "f1".to_string(),
            "c".to_string(),
            "t".to_string(),
        )
        .expect("login init should succeed");
    let session = login
        .login_submit_password_at("f1", "dev1", "pw12345678", 1_100, "s1".to_string())
        .expect("password login by email should succeed");
    assert_eq!(session.identity_id, "id-alice");
}
