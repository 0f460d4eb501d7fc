use keygate::config::{Configuration, Environment, StorageOptions};
use keygate::storage::StorageType;
use keygate::validate::{is_valid_email, is_valid_id, is_valid_password, is_valid_username};

#[test]
fn configuration_defaults_match_policy() {
    let cfg = Configuration::default();
    assert_eq!(cfg.environment, Environment::Development);
    assert_eq!(cfg.storage_type, StorageType::SQL);
    match cfg.storage_options {
        StorageOptions::Redis(options) => {
            assert_eq!(options.storage_path, "./data");
            assert_eq!(options.redis_url, "redis://localhost/");
        }
        StorageOptions::SQL(_) => panic!("default storage options should be the remote cache"),
    }
    assert_eq!(cfg.server.keygate_domain, "auth.localhost");
    assert_eq!(cfg.server.admin_port, 8081);
    assert_eq!(cfg.server.admin_interface, "127.0.0.1");
    assert_eq!(cfg.server.public_port, 8080);
    assert_eq!(cfg.server.public_interface, "0.0.0.0");
    assert!(cfg.server.admin_prefix.is_none());
    assert!(cfg.server.public_prefix.is_none());
    assert!(!cfg.token.sign_jwt);
    assert_eq!(cfg.token.access_token_lifetime, 30 * 60);
    assert_eq!(cfg.token.refresh_token_lifetime, 14 * 24 * 3600);
    assert!(!cfg.identity.signup_with_email);
    assert!(cfg.identity.signup_with_username);
    assert!(cfg.identity.signup_require_username);
    assert!(!cfg.identity.signup_require_email);
    assert!(!cfg.identity.signup_require_email_verification);
    assert_eq!(cfg.identity.signup_process_lifetime, 60 * 60);
    assert!(cfg.identity.login_with_username);
    assert!(cfg.identity.login_with_email);
    assert_eq!(cfg.identity.login_process_lifetime, 60 * 60);
    assert!(!cfg.identity.allow_multiple_emails);
    assert_eq!(cfg.identity.password_min_length, 8);
    assert!(cfg.identity.check_leaked_passwords);
}

#[test]
fn device_id_shape_is_checked() {
    assert!(is_valid_id("dev1"));
    assert!(is_valid_id("a"));
    assert!(is_valid_id("A-b_9"));
    assert!(is_valid_id(&"x".repeat(64)));
    assert!(!is_valid_id(""));
    assert!(!is_valid_id(&"x".repeat(65)));
    assert!(!is_valid_id("has space"));
    assert!(!is_valid_id("umlaut-ä"));
}

#[test]
fn username_shape_is_checked() {
    assert!(is_valid_username("alice"));
    assert!(is_valid_username("ab9"));
    assert!(!is_valid_username("ab"));
    assert!(!is_valid_username(&"x".repeat(33)));
    assert!(!is_valid_username("has space"));
}

#[test]
fn email_shape_is_checked() {
    assert!(is_valid_email("a@x.com"));
    assert!(is_valid_email("a@b"));
    assert!(!is_valid_email("ab"));
    assert!(!is_valid_email("@x.com"));
    assert!(!is_valid_email("a@"));
    assert!(!is_valid_email("a@@b"));
    assert!(!is_valid_email("a@b@c"));
    assert!(!is_valid_email(&format!("{}@b", "x".repeat(254))));
}

#[test]
fn password_length_is_checked_against_policy() {
    assert!(is_valid_password("12345678", 8));
    assert!(!is_valid_password("1234567", 8));
    assert!(is_valid_password(&"x".repeat(300), 8));
}

#[test]
fn random_ids_are_long_alphanumeric_and_fresh() {
    let a = keygate::random::secure_random_id();
    let b = keygate::random::secure_random_id();
    assert_eq!(a.chars().count(), 32);
    assert!(a.chars().all(|c| c.is_ascii_alphanumeric()));
    assert_ne!(a, b);
    assert!(is_valid_id(&a));
}

#[test]
fn password_hashing_round_trips_and_hides_the_password() {
    let hash = keygate::hash::password("Sup3rSecret!").expect("hashing should succeed");
    assert!(hash.starts_with('$'));
    assert_ne!(hash, "Sup3rSecret!");
    assert!(keygate::hash::verify_password(&hash, "Sup3rSecret!"));
    assert!(!keygate::hash::verify_password(&hash, "Sup3rSecret?"));
    assert!(!keygate::hash::verify_password("not a hash", "Sup3rSecret!"));
}

#[test]
fn clock_is_monotonic_enough_to_order_two_reads() {
    let first = keygate::clock::now_timestamp();
    let second = keygate::clock::now_timestamp();
    assert!(first > 1_600_000_000);
    assert!(second >= first);
}
