//! End-to-end flows: issue, resolve, rotate, gate and bootstrap.

use auth_core::auth::{init, may_update, validator, GateDecision};
use auth_core::config::AuthConfig;
use auth_core::users::{MaybeUser, User, UserDirectory};

fn secret_bytes() -> Vec<u8> {
    b"0123456789abcdef0123456789abcdef0123456789abcdef".to_vec()
}

fn config() -> AuthConfig {
    AuthConfig::new(secret_bytes()).expect("48-byte secret must be accepted")
}

fn request(username: &str, password: &str) -> MaybeUser {
    MaybeUser { username: String::from(username), password: String::from(password) }
}

#[test]
fn test_create_and_resolve() {
    let cfg = config();
    let mut dir = UserDirectory::new();
    let user = dir.create(request("alice", "p1"), 11).expect("create must succeed");
    assert_eq!(user.username, "alice");
    assert_eq!(user.created_at, 11);
    assert_eq!(user.updated_at, 11);
    let issued = user.to_auth_user(&cfg).expect("issuance must succeed");
    let found = dir.find_by_token(&cfg, issued.token).expect("fresh token must resolve");
    assert_eq!(found.username, "alice");
    assert_eq!(found.id, user.id);
}

#[test]
fn test_credential_envelope_shape() {
    let mut dir = UserDirectory::new();
    let user = dir.create(request("alice", "p1"), 0).expect("create must succeed");
    assert!(user.token.starts_with("$2$10$"));
    assert_eq!(user.token.matches('$').count(), 3);
    // The stored credential never holds the plaintext password.
    assert!(!user.token.contains("p1"));
}

#[test]
fn test_rotation_invalidates_old_tokens() {
    let cfg = config();
    let mut dir = UserDirectory::new();
    let user = dir.create(request("alice", "p1"), 0).expect("create must succeed");
    let old_token = user.to_auth_user(&cfg).expect("issuance must succeed");

    let rotated = dir.update(user.id, request("alice", "p2"), 5).expect("rotation must succeed");
    assert_eq!(rotated.id, user.id);
    assert_eq!(rotated.updated_at, 5);

    let stale = dir.find_by_token(&cfg, old_token.token);
    let err = stale.expect_err("a pre-rotation token must no longer resolve");
    assert_eq!(err.error_status_code, 401);
    assert_eq!(err.error_message, "Unauthorized");

    let fresh = rotated.to_auth_user(&cfg).expect("issuance must succeed");
    let found = dir.find_by_token(&cfg, fresh.token).expect("post-rotation token must resolve");
    assert_eq!(found.username, "alice");
}

#[test]
fn test_empty_username_round_trips() {
    let cfg = config();
    let mut dir = UserDirectory::new();
    let user = dir.create(request("", "p1"), 0).expect("empty username is allowed");
    let issued = user.to_auth_user(&cfg).expect("issuance must succeed");
    let found = dir.find_by_token(&cfg, issued.token).expect("token must resolve");
    assert_eq!(found.username, "");
}

#[test]
fn test_duplicate_username_conflict() {
    let mut dir = UserDirectory::new();
    dir.create(request("alice", "p1"), 0).expect("first create must succeed");
    let err = dir.create(request("alice", "p2"), 0).expect_err("duplicate username must fail");
    assert_eq!(err.error_status_code, 409);
}

#[test]
fn test_update_missing_id() {
    let mut dir = UserDirectory::new();
    let err = dir.update(42, request("alice", "p1"), 0).expect_err("unknown id must fail");
    assert_eq!(err.error_status_code, 404);
}

#[test]
fn test_update_username_conflict() {
    let mut dir = UserDirectory::new();
    dir.create(request("alice", "p1"), 0).expect("create must succeed");
    let bob = dir.create(request("bob", "p2"), 0).expect("create must succeed");
    let err = dir
        .update(bob.id, request("alice", "p3"), 1)
        .expect_err("renaming onto a taken username must fail");
    assert_eq!(err.error_status_code, 409);
}

#[test]
fn test_delete_removes_record() {
    let cfg = config();
    let mut dir = UserDirectory::new();
    let user = dir.create(request("alice", "p1"), 0).expect("create must succeed");
    let token = user.to_auth_user(&cfg).expect("issuance must succeed");
    assert_eq!(dir.delete(user.id).expect("delete must succeed"), 1);
    assert_eq!(dir.count(), 0);
    let err = dir.find_by_token(&cfg, token.token).expect_err("deleted user must not resolve");
    assert_eq!(err.error_status_code, 401);
    assert_eq!(dir.delete(user.id).expect("delete must succeed"), 0);
}

#[test]
fn test_anonymous_gating() {
    let cfg = config();
    let dir = UserDirectory::new();
    let health = validator(&dir, &cfg, "_", "/health");
    assert!(matches!(health, GateDecision::Allow(None)));
    let other = validator(&dir, &cfg, "_", "/users");
    assert!(matches!(other, GateDecision::Deny));
}

#[test]
fn test_validator_with_real_token() {
    let cfg = config();
    let mut dir = UserDirectory::new();
    let user = dir.create(request("alice", "p1"), 0).expect("create must succeed");
    let issued = user.to_auth_user(&cfg).expect("issuance must succeed");
    match validator(&dir, &cfg, issued.token.as_str(), "/asset_tags") {
        GateDecision::Allow(Some(found)) => assert_eq!(found.username, "alice"),
        _ => panic!("a valid token must be allowed with its user attached"),
    }
    let garbage = validator(&dir, &cfg, "no-such-token", "/asset_tags");
    assert!(matches!(garbage, GateDecision::Deny));
}

#[test]
fn test_tamper_resistance() {
    let cfg = config();
    let mut dir = UserDirectory::new();
    let user = dir.create(request("alice", "p1"), 0).expect("create must succeed");
    let issued = user.to_auth_user(&cfg).expect("issuance must succeed");
    let mut raw = base64::decode(&issued.token).expect("issued token must be valid base64");
    raw[0] ^= 0x01;
    let tampered = base64::encode(&raw);
    let err = dir.find_by_token(&cfg, tampered).expect_err("a tampered token must not resolve");
    assert_eq!(err.error_status_code, 401);
}

#[test]
fn test_statelessness_across_instances() {
    let first = AuthConfig::new(secret_bytes()).expect("secret must be accepted");
    let second = AuthConfig::new(secret_bytes()).expect("secret must be accepted");
    let mut dir = UserDirectory::new();
    let user = dir.create(request("alice", "p1"), 0).expect("create must succeed");
    let issued_by_first = user.to_auth_user(&first).expect("issuance must succeed");
    let found = dir
        .find_by_token(&second, issued_by_first.token)
        .expect("the second instance must resolve a token the first issued");
    assert_eq!(found.username, "alice");
}

#[test]
fn test_user_cant_change_other_users() {
    let cfg = config();
    let mut dir = UserDirectory::new();
    let user1 = dir.create(request("user1", "secretpassword"), 0).expect("create must succeed");
    let user2 = dir.create(request("user2", "secretpassword"), 0).expect("create must succeed");
    let token1 = user1.to_auth_user(&cfg).expect("issuance must succeed");
    let token2 = user2.to_auth_user(&cfg).expect("issuance must succeed");

    // user2's token resolves, but the ownership check refuses the rotation
    // of user1's record, so the directory is never touched.
    let resolved = match validator(&dir, &cfg, token2.token.as_str(), "/users/1") {
        GateDecision::Allow(Some(resolved)) => resolved,
        _ => panic!("user2's token must resolve"),
    };
    assert!(!may_update(&resolved, user1.id));
    assert!(may_update(&resolved, user2.id));

    // user1's credential is unchanged: the old token still resolves.
    let found = dir.find_by_token(&cfg, token1.token).expect("user1's token must still resolve");
    assert_eq!(found.username, "user1");
}

#[test]
fn test_resolution_failures_are_indistinguishable() {
    let cfg = config();
    let mut dir = UserDirectory::new();
    let user = dir.create(request("alice", "p1"), 0).expect("create must succeed");
    let good = user.to_auth_user(&cfg).expect("issuance must succeed");

    // One token names a user that does not exist, the other a real user
    // with a wrong credential (issued before rotation): the two errors are
    // identical in status and message.
    let ghost_user =
        User { id: 99, username: String::from("nobody"), token: user.token.clone(), created_at: 0, updated_at: 0 };
    let no_such_user = ghost_user.to_auth_user(&cfg).expect("issuance must succeed");
    dir.update(user.id, request("alice", "p2"), 1).expect("rotation must succeed");

    let e1 = dir.find_by_token(&cfg, no_such_user.token).expect_err("must fail");
    let e2 = dir.find_by_token(&cfg, good.token).expect_err("must fail");
    assert_eq!(e1.error_status_code, e2.error_status_code);
    assert_eq!(e1.error_message, e2.error_message);
    assert_eq!(e1.error_message, "Unauthorized");
}

#[test]
fn test_resolve_rejects_malformed_tokens() {
    let cfg = config();
    let dir = UserDirectory::new();
    let not_base64 = dir.find_by_token(&cfg, String::from("!!! not base64 !!!"));
    assert_eq!(not_base64.expect_err("must fail").error_status_code, 401);
    let wrong_length = dir.find_by_token(&cfg, base64::encode([1u8, 2, 3]));
    assert_eq!(wrong_length.expect_err("must fail").error_status_code, 401);
}

#[test]
fn test_bootstrap_admin() {
    let cfg = config();
    let mut dir = UserDirectory::new();
    let bootstrapped = init(&mut dir, 3).expect("bootstrap must succeed");
    assert!(bootstrapped);
    assert_eq!(dir.count(), 1);

    let again = init(&mut dir, 4).expect("a second init must be a no-op");
    assert!(!again);
    assert_eq!(dir.count(), 1);

    // The bootstrap account works like any other: resolve a token for it.
    let admin = dir.update(1, request("admin", "admin"), 5).expect("rotation must succeed");
    let issued = admin.to_auth_user(&cfg).expect("issuance must succeed");
    let found = dir.find_by_token(&cfg, issued.token).expect("admin token must resolve");
    assert_eq!(found.username, "admin");
}
