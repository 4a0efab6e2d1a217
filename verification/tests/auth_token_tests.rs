use blog_backend::auth::{create_jwt, create_jwt_at, verify_jwt, verify_jwt_at, Claims};
use blog_backend::clock::current_unix_time;
use blog_backend::errors::AuthError;
use blog_backend::secrets::{get_jwt_secret, init_jwt_secret, SecretStore};

const SECRET: &str = "this_is_a_very_long_test_secret_for_jwt_checks_12345_ABC_abc_!!!";

#[test]
fn test_jwt_lifecycle() {
    let mut store = SecretStore::new();
    let _ = init_jwt_secret(&mut store, Some(SECRET));
    let secret = get_jwt_secret(&store);

    let username = "testuser".to_string();
    let role = "admin".to_string();

    let token = create_jwt(username.clone(), role.clone(), secret).expect("Failed to create token");
    let decoded = verify_jwt(&token, secret).expect("Failed to verify token");

    assert_eq!(decoded.sub, username);
    assert_eq!(decoded.role, role);
}

#[test]
fn test_claims_new() {
    let username = "test".to_string();
    let role = "user".to_string();
    let claims = Claims::new(username.clone(), role.clone());

    assert_eq!(claims.sub, username);
    assert_eq!(claims.role, role);
    let now = current_unix_time();
    assert!(claims.exp as i64 >= now + 86400 - 5);
    assert!(claims.exp as i64 <= now + 86400);
}

#[test]
fn claims_expire_a_day_after_issue() {
    let claims = Claims::issued_at("a".to_string(), "b".to_string(), 1_700_000_000);
    assert_eq!(claims.exp, 1_700_086_400);
}

#[test]
fn token_round_trip_keeps_name_role_and_expiry() {
    let token = create_jwt_at("alice", "editor", SECRET, 1_700_000_000).unwrap();
    assert_eq!(token.split('.').count(), 3);
    let claims = verify_jwt_at(&token, SECRET, 1_700_000_100).unwrap();
    assert_eq!(claims.sub, "alice");
    assert_eq!(claims.role, "editor");
    assert_eq!(claims.exp, 1_700_086_400);
}

#[test]
fn token_is_accepted_within_the_leeway_and_refused_after() {
    let token = create_jwt_at("alice", "editor", SECRET, 1_700_000_000).unwrap();
    let exp = 1_700_086_400;
    assert!(verify_jwt_at(&token, SECRET, exp).is_ok());
    assert!(verify_jwt_at(&token, SECRET, exp + 60).is_ok());
    assert_eq!(verify_jwt_at(&token, SECRET, exp + 61).unwrap_err(), AuthError::ExpiredToken);
    assert_eq!(verify_jwt_at(&token, SECRET, i64::MAX).unwrap_err(), AuthError::ExpiredToken);
    assert!(verify_jwt_at(&token, SECRET, -5).is_ok());
}

#[test]
fn token_under_another_secret_is_invalid() {
    let token = create_jwt_at("alice", "editor", SECRET, 1_700_000_000).unwrap();
    let other = "another_very_long_test_secret_for_jwt_checks_67890_XYZ_xyz_???";
    assert_eq!(verify_jwt_at(&token, other, 1_700_000_100).unwrap_err(), AuthError::InvalidToken);
}

#[test]
fn tampered_token_is_invalid() {
    let token = create_jwt_at("alice", "editor", SECRET, 1_700_000_000).unwrap();
    let mut bytes = token.clone().into_bytes();
    let last = bytes.len() - 1;
    bytes[last] = if bytes[last] == b'A' { b'B' } else { b'A' };
    let tampered = String::from_utf8(bytes).unwrap();
    assert_eq!(verify_jwt_at(&tampered, SECRET, 1_700_000_100).unwrap_err(), AuthError::InvalidToken);
    assert_eq!(verify_jwt_at("not-a-token", SECRET, 0).unwrap_err(), AuthError::InvalidToken);
    assert_eq!(verify_jwt_at("", SECRET, 0).unwrap_err(), AuthError::InvalidToken);
    assert_eq!(verify_jwt_at("a.b.c", SECRET, 0).unwrap_err(), AuthError::InvalidToken);
}

#[test]
fn expired_and_invalid_read_the_same_to_the_client() {
    assert_eq!(AuthError::ExpiredToken.message(), AuthError::InvalidToken.message());
    assert_eq!(AuthError::InvalidToken.message(), "Invalid token");
}
