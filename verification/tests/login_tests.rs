use blog_backend::attempts::{
    next_attempt, remaining_lockout, LoginAttempt, LoginAttemptTracker,
};
use blog_backend::errors::{ApiError, AuthError, InternalError, ValidationError};
use blog_backend::login::{
    dummy_bcrypt_hash, dummy_hash_or_fallback, hash_login_identifier, judge_credentials,
    login_jitter_millis, validate_password, validate_username, verify_credentials,
    FALLBACK_DUMMY_HASH,
};
use blog_backend::models::{LoginRequest, User};
use blog_backend::session::{begin_login, check_lockout, conclude_login, reject_login};

const SALT: &str = "0123456789abcdefghijklmnopqrstuvwxyz";
const ADMIN_PASSWORD: &str = "Str0ng!Passw0rd123";
// a bcrypt hash of "correctbatteryhorsestapler"
const KNOWN_HASH: &str = "$2b$04$EGdrhbKUv8Oc9vGiXX0HQOxSg445d458Muh7DAHskb6QbtCvdxcie";

fn admin_hash() -> String {
    bcrypt::hash(ADMIN_PASSWORD, 4).unwrap()
}

#[test]
fn username_rules() {
    assert_eq!(validate_username("admin"), Ok(()));
    assert_eq!(validate_username("a.b-c_D9"), Ok(()));
    assert_eq!(validate_username(""), Err(ValidationError::UsernameEmpty));
    assert_eq!(validate_username(&"a".repeat(50)), Ok(()));
    assert_eq!(validate_username(&"a".repeat(51)), Err(ValidationError::UsernameTooLong));
    assert_eq!(validate_username("ad min"), Err(ValidationError::UsernameInvalidChars));
    assert_eq!(validate_username("admin!"), Err(ValidationError::UsernameInvalidChars));
    assert_eq!(validate_username("ädmin"), Err(ValidationError::UsernameInvalidChars));
    assert_eq!(ValidationError::UsernameEmpty.message(), "Username cannot be empty");
    assert_eq!(ValidationError::UsernameTooLong.message(), "Username too long");
}

#[test]
fn password_rules() {
    assert_eq!(validate_password("Str0ng!Passw0rd123"), Ok(()));
    assert_eq!(validate_password("short1A!"), Err(ValidationError::PasswordTooShort));
    assert_eq!(validate_password("abcdefghijk"), Err(ValidationError::PasswordTooShort));
    assert_eq!(validate_password("abcdefghijkl"), Err(ValidationError::PasswordTooSimple));
    assert_eq!(validate_password("abcdefghijkL"), Err(ValidationError::PasswordTooSimple));
    // three of the four classes are enough
    assert_eq!(validate_password("abcdefghijL1"), Ok(()));
    assert_eq!(validate_password("abcdefghij!1"), Ok(()));
    assert_eq!(validate_password("ABCDEFGHIJ!1"), Ok(()));
    assert_eq!(validate_password(&format!("aB1{}", "x".repeat(125))), Ok(()));
    assert_eq!(
        validate_password(&format!("aB1{}", "x".repeat(126))),
        Err(ValidationError::PasswordTooLong)
    );
}

#[test]
fn login_key_is_a_salted_digest_of_the_normalized_name() {
    let key = hash_login_identifier(SALT, "admin");
    assert_eq!(key.len(), 64);
    assert!(key.chars().all(|c| c.is_ascii_digit() || ('a'..='f').contains(&c)));
    assert_eq!(key, hash_login_identifier(SALT, "  Admin\n"));
    assert_eq!(key, hash_login_identifier(SALT, "ADMIN"));
    assert_ne!(key, hash_login_identifier(SALT, "admin2"));
    assert_ne!(key, hash_login_identifier("another salt of sufficient length!!", "admin"));
    // sha256("saltadmin")
    assert_eq!(
        hash_login_identifier("salt", "admin"),
        "2bb7998496899acdd8137fad3a44faf96a84a03d7f230ce42e97cd17c7ae429e"
    );
}

#[test]
fn credentials_need_a_known_user_and_a_matching_hash() {
    let dummy = dummy_bcrypt_hash();
    let stored = admin_hash();
    assert!(verify_credentials(Some(&stored), ADMIN_PASSWORD, &dummy));
    assert!(!verify_credentials(Some(&stored), "Wr0ng!Passw0rd123", &dummy));
    assert!(!verify_credentials(Some("not a hash"), ADMIN_PASSWORD, &dummy));
    assert!(!verify_credentials(None, ADMIN_PASSWORD, &stored));
    assert!(verify_credentials(Some(KNOWN_HASH), "correctbatteryhorsestapler", &dummy));
    assert!(!verify_credentials(Some(KNOWN_HASH), "correctbatteryhorsestaple", &dummy));
    assert!(!verify_credentials(None, "dummy", &dummy));
    assert!(judge_credentials(true, Some(true)));
    assert!(!judge_credentials(false, Some(true)));
    assert!(!judge_credentials(true, Some(false)));
    assert!(!judge_credentials(true, None));
}

#[test]
fn dummy_hash_is_a_bcrypt_hash() {
    let dummy = dummy_bcrypt_hash();
    assert_eq!(dummy.len(), 60);
    assert!(dummy.starts_with("$2"));
    assert_eq!(blog_backend::login::password_matches("dummy", &dummy), Some(true));
    assert_eq!(blog_backend::login::password_matches("dummy2", &dummy), Some(false));
    assert_eq!(FALLBACK_DUMMY_HASH.chars().count(), 60);
    let hash = blog_backend::login::hash_password("pässwörd").unwrap();
    assert_eq!(hash.chars().count(), 60);
    assert_eq!(blog_backend::login::password_matches("pässwörd", &hash), Some(true));
    let long = "x".repeat(100);
    let hash = blog_backend::login::hash_password(&long).unwrap();
    assert_eq!(hash.chars().count(), 60);
    assert_eq!(blog_backend::login::password_matches(&long, &hash), Some(true));
    let hash = blog_backend::login::hash_password("").unwrap();
    assert_eq!(blog_backend::login::password_matches("", &hash), Some(true));
    assert_eq!(dummy_hash_or_fallback(None), FALLBACK_DUMMY_HASH);
    assert_eq!(dummy_hash_or_fallback(Some("x".to_string())), "x");
}

#[test]
fn jitter_is_between_100_and_299_milliseconds() {
    assert_eq!(login_jitter_millis(0), 100);
    assert_eq!(login_jitter_millis(199), 299);
    assert_eq!(login_jitter_millis(200), 100);
    assert_eq!(login_jitter_millis(999), 299);
    assert_eq!(login_jitter_millis(u32::MAX), 100 + (u32::MAX % 200) as u64);
}

#[test]
fn lockout_tiers() {
    let now = 1_700_000_000;
    let first = next_attempt(None, now);
    assert_eq!(first, LoginAttempt { fail_count: 1, blocked_until: None });
    let second = next_attempt(Some(first), now + 1);
    assert_eq!(second, LoginAttempt { fail_count: 2, blocked_until: None });
    let third = next_attempt(Some(second), now + 2);
    assert_eq!(third, LoginAttempt { fail_count: 3, blocked_until: Some(now + 12) });
    let fourth = next_attempt(Some(third), now + 20);
    assert_eq!(fourth, LoginAttempt { fail_count: 4, blocked_until: Some(now + 30) });
    let fifth = next_attempt(Some(fourth), now + 40);
    assert_eq!(fifth, LoginAttempt { fail_count: 5, blocked_until: Some(now + 100) });
    let sixth = next_attempt(Some(fifth), now + 200);
    assert_eq!(sixth, LoginAttempt { fail_count: 6, blocked_until: Some(now + 260) });

    assert_eq!(remaining_lockout(None, now), None);
    assert_eq!(remaining_lockout(Some(&second), now), None);
    assert_eq!(remaining_lockout(Some(&third), now + 2), Some(10));
    assert_eq!(remaining_lockout(Some(&third), now + 11), Some(1));
    assert_eq!(remaining_lockout(Some(&third), now + 12), None);
    assert_eq!(remaining_lockout(Some(&fifth), now + 40), Some(60));
    assert_eq!(remaining_lockout(Some(&fifth), now + 99), Some(1));
    assert_eq!(remaining_lockout(Some(&fifth), now + 100), None);
}

#[test]
fn lockout_arithmetic_does_not_overflow() {
    let late = next_attempt(Some(LoginAttempt { fail_count: i64::MAX, blocked_until: None }), i64::MAX - 5);
    assert_eq!(late, LoginAttempt { fail_count: i64::MAX, blocked_until: Some(i64::MAX) });
    let record = LoginAttempt { fail_count: 3, blocked_until: Some(i64::MAX) };
    assert_eq!(remaining_lockout(Some(&record), i64::MIN), Some(i64::MAX));
    assert_eq!(remaining_lockout(Some(&record), -1), Some(i64::MAX));
    assert_eq!(remaining_lockout(Some(&record), 0), Some(i64::MAX));
    assert_eq!(remaining_lockout(Some(&record), 1), Some(i64::MAX - 1));
}

#[test]
fn tracker_counts_per_key_and_clears() {
    let mut tracker = LoginAttemptTracker::new();
    assert_eq!(tracker.get("a"), None);
    tracker.record_failure("a", 100);
    tracker.record_failure("b", 100);
    tracker.record_failure("a", 101);
    tracker.record_failure("a", 102);
    assert_eq!(tracker.get("a"), Some(LoginAttempt { fail_count: 3, blocked_until: Some(112) }));
    assert_eq!(tracker.get("b"), Some(LoginAttempt { fail_count: 1, blocked_until: None }));
    tracker.clear("a");
    assert_eq!(tracker.get("a"), None);
    assert_eq!(tracker.get("b"), Some(LoginAttempt { fail_count: 1, blocked_until: None }));
    tracker.clear("missing");
    tracker.record_failure("a", 200);
    assert_eq!(tracker.get("a"), Some(LoginAttempt { fail_count: 1, blocked_until: None }));
}

fn request(username: &str, password: &str) -> LoginRequest {
    LoginRequest { username: username.to_string(), password: password.to_string() }
}

fn admin() -> User {
    User {
        id: 1,
        username: "admin".to_string(),
        password_hash: admin_hash(),
        role: "admin".to_string(),
        created_at: "2023-01-01T00:00:00Z".to_string(),
    }
}

#[test]
fn login_request_is_checked_before_anything_else() {
    let (username, key) = begin_login(&request("  admin ", "Str0ng!Passw0rd123"), SALT).unwrap();
    assert_eq!(username, "admin");
    assert_eq!(key, hash_login_identifier(SALT, "admin"));
    assert_eq!(
        begin_login(&request("", "Str0ng!Passw0rd123"), SALT).unwrap_err(),
        ApiError::Validation(ValidationError::UsernameEmpty)
    );
    assert_eq!(
        begin_login(&request("   ", "x"), SALT).unwrap_err(),
        ApiError::Validation(ValidationError::UsernameEmpty)
    );
    assert_eq!(
        begin_login(&request("bad name", "x"), SALT).unwrap_err(),
        ApiError::Validation(ValidationError::UsernameInvalidChars)
    );
    let e = begin_login(&request("admin", "password"), SALT).unwrap_err();
    assert_eq!(e, ApiError::Validation(ValidationError::PasswordTooShort));
    assert_eq!(e.status(), 400);
}

#[test]
fn good_login_answers_with_token_user_and_both_cookies() {
    let mut tracker = LoginAttemptTracker::new();
    let payload = request("admin", "Str0ng!Passw0rd123");
    let (username, key) = begin_login(&payload, SALT).unwrap();
    assert_eq!(check_lockout(tracker.get(&key).as_ref(), 1_700_000_000), Ok(()));
    let user = admin();
    assert_eq!(user.username, username);
    let dummy = dummy_bcrypt_hash();
    let valid = verify_credentials(Some(&user.password_hash), &payload.password, &dummy);
    assert!(valid);
    let jwt_secret = "this_is_a_very_long_test_secret_for_jwt_checks_12345_ABC_abc_!!!";
    let csrf_secret = b"this_is_a_very_long_test_secret_for_csrf_checks_12345";
    let (headers, body) = conclude_login(
        valid,
        Some(&user),
        &mut tracker,
        &key,
        jwt_secret,
        csrf_secret,
        true,
        1_700_000_000,
    )
    .unwrap();
    assert_eq!(body.user.username, "admin");
    assert_eq!(body.user.role, "admin");
    let claims = blog_backend::auth::verify_jwt_at(&body.token, jwt_secret, 1_700_000_000).unwrap();
    assert_eq!(claims.sub, "admin");
    assert_eq!(claims.role, "admin");
    let cookies: Vec<String> = headers
        .get_all("set-cookie")
        .iter()
        .map(|v| v.to_str().unwrap().to_string())
        .collect();
    assert_eq!(cookies.len(), 2);
    assert_eq!(
        cookies[0],
        format!("ltcms_session={}; HttpOnly; SameSite=Lax; Secure; Path=/; Max-Age=86400", body.token)
    );
    assert!(cookies[1].starts_with("ltcms_csrf=v1|"));
    assert!(cookies[1].ends_with("; SameSite=Strict; Secure; Path=/; Max-Age=21600"));
    assert!(!cookies[1].contains("HttpOnly"));
    assert_eq!(headers.len(), 2);
}

#[test]
fn five_failures_lock_the_sixth_attempt_out() {
    let mut tracker = LoginAttemptTracker::new();
    let payload = request("admin", "Wr0ng!Passw0rd123");
    let user = admin();
    let dummy = dummy_bcrypt_hash();
    let jwt_secret = "this_is_a_very_long_test_secret_for_jwt_checks_12345_ABC_abc_!!!";
    let csrf_secret = b"this_is_a_very_long_test_secret_for_csrf_checks_12345";
    let mut now = 1_700_000_000;
    for attempt in 1..=5 {
        let (_, key) = begin_login(&payload, SALT).unwrap();
        assert_eq!(check_lockout(tracker.get(&key).as_ref(), now), Ok(()), "attempt {}", attempt);
        let valid = verify_credentials(Some(&user.password_hash), &payload.password, &dummy);
        let e = conclude_login(valid, Some(&user), &mut tracker, &key, jwt_secret, csrf_secret, true, now)
            .err()
            .unwrap();
        assert_eq!(e, ApiError::Unauthenticated(AuthError::InvalidCredentials));
        assert_eq!(e.status(), 401);
        assert_eq!(e.message(), "Ungültige Anmeldedaten");
        // wait out the short locks of the third and fourth failure
        now += 11;
    }
    now -= 11;
    let (_, key) = begin_login(&payload, SALT).unwrap();
    let e = check_lockout(tracker.get(&key).as_ref(), now).unwrap_err();
    assert_eq!(e, ApiError::RateLimited(60));
    assert_eq!(e.status(), 429);
    assert_eq!(e.message(), "Zu viele fehlgeschlagene Versuche. Bitte warte 60 Sekunden.");
    assert_eq!(check_lockout(tracker.get(&key).as_ref(), now + 59), Err(ApiError::RateLimited(1)));
    assert_eq!(
        ApiError::RateLimited(1).message(),
        "Zu viele fehlgeschlagene Versuche. Bitte warte 1 Sekunde."
    );
    assert_eq!(check_lockout(tracker.get(&key).as_ref(), now + 60), Ok(()));
}

#[test]
fn fourth_attempt_within_ten_seconds_is_rate_limited() {
    let mut tracker = LoginAttemptTracker::new();
    let key = hash_login_identifier(SALT, "admin");
    let now = 1_700_000_000;
    for _ in 0..3 {
        assert_eq!(check_lockout(tracker.get(&key).as_ref(), now), Ok(()));
        let e = reject_login(&mut tracker, &key, now);
        assert_eq!(e, ApiError::Unauthenticated(AuthError::InvalidCredentials));
    }
    assert_eq!(check_lockout(tracker.get(&key).as_ref(), now), Err(ApiError::RateLimited(10)));
    assert_eq!(check_lockout(tracker.get(&key).as_ref(), now + 9), Err(ApiError::RateLimited(1)));
    assert_eq!(check_lockout(tracker.get(&key).as_ref(), now + 10), Ok(()));
}

#[test]
fn a_good_login_resets_the_count() {
    let mut tracker = LoginAttemptTracker::new();
    let key = hash_login_identifier(SALT, "admin");
    let user = admin();
    let jwt_secret = "this_is_a_very_long_test_secret_for_jwt_checks_12345_ABC_abc_!!!";
    let csrf_secret = b"this_is_a_very_long_test_secret_for_csrf_checks_12345";
    reject_login(&mut tracker, &key, 100);
    reject_login(&mut tracker, &key, 101);
    assert!(conclude_login(true, Some(&user), &mut tracker, &key, jwt_secret, csrf_secret, false, 102).is_ok());
    assert_eq!(tracker.get(&key), None);
    reject_login(&mut tracker, &key, 103);
    assert_eq!(tracker.get(&key), Some(LoginAttempt { fail_count: 1, blocked_until: None }));
}

#[test]
fn an_unknown_user_is_never_let_in() {
    let mut tracker = LoginAttemptTracker::new();
    let key = hash_login_identifier(SALT, "ghost");
    let e = conclude_login(true, None, &mut tracker, &key, "s", b"s", true, 100).err().unwrap();
    assert_eq!(e, ApiError::Unauthenticated(AuthError::InvalidCredentials));
    assert_eq!(tracker.get(&key), Some(LoginAttempt { fail_count: 1, blocked_until: None }));
}

#[test]
fn error_taxonomy_maps_to_http() {
    assert_eq!(ApiError::Validation(ValidationError::UsernameEmpty).status(), 400);
    assert_eq!(ApiError::Unauthenticated(AuthError::MissingToken).status(), 401);
    assert_eq!(ApiError::Unauthenticated(AuthError::RevokedToken).message(), "Token has been revoked");
    assert_eq!(ApiError::RateLimited(5).status(), 429);
    assert_eq!(ApiError::Forbidden(blog_backend::errors::CsrfError::MissingHeader).status(), 403);
    assert_eq!(
        ApiError::Forbidden(blog_backend::errors::CsrfError::MissingHeader).message(),
        "Missing CSRF token header"
    );
    assert_eq!(ApiError::InsufficientPermissions.status(), 403);
    assert_eq!(ApiError::InsufficientPermissions.message(), "Insufficient permissions");
    assert_eq!(ApiError::Conflict.status(), 409);
    assert_eq!(ApiError::Internal(InternalError::Storage).status(), 500);
    assert_eq!(ApiError::Internal(InternalError::Storage).message(), "Internal server error");
    assert_eq!(ApiError::Internal(InternalError::TokenCreation).message(), "Failed to create token");
    assert_eq!(ApiError::Internal(InternalError::Storage).response().error, "Internal server error");
    assert_eq!(
        ApiError::RateLimited(-3).message(),
        "Zu viele fehlgeschlagene Versuche. Bitte warte -3 Sekunden."
    );
}

#[test]
fn stored_standings_are_put_back() {
    let mut tracker = LoginAttemptTracker::new();
    tracker.restore("k", LoginAttempt { fail_count: 4, blocked_until: Some(500) });
    assert_eq!(tracker.get("k"), Some(LoginAttempt { fail_count: 4, blocked_until: Some(500) }));
    assert_eq!(check_lockout(tracker.get("k").as_ref(), 499), Err(ApiError::RateLimited(1)));
    tracker.record_failure("k", 600);
    assert_eq!(tracker.get("k"), Some(LoginAttempt { fail_count: 5, blocked_until: Some(660) }));
    assert_eq!(
        blog_backend::attempts::get_login_attempt(&tracker, "k"),
        Some(LoginAttempt { fail_count: 5, blocked_until: Some(660) })
    );
    blog_backend::attempts::record_failed_login(&mut tracker, "j", 1);
    blog_backend::attempts::clear_login_attempts(&mut tracker, "k");
    assert_eq!(tracker.get("k"), None);
    assert_eq!(tracker.get("j"), Some(LoginAttempt { fail_count: 1, blocked_until: None }));
    let mut store = blog_backend::revocation::RevocationStore::new();
    blog_backend::revocation::blacklist_token(&mut store, "t", 9);
    assert!(blog_backend::revocation::is_token_blacklisted(&store, "t"));
    assert!(!blog_backend::revocation::is_token_blacklisted(&store, "u"));
}

#[test]
fn a_user_without_a_name_gets_no_session_and_no_failure_counted() {
    let mut tracker = LoginAttemptTracker::new();
    tracker.record_failure("key", 1_700_000_000);
    let nameless = User { username: String::new(), ..admin() };
    let r = conclude_login(
        true,
        Some(&nameless),
        &mut tracker,
        "key",
        "this_is_a_very_long_test_secret_for_jwt_checks_12345_ABC_abc_!!!",
        b"this_is_a_very_long_test_secret_for_csrf_checks_12345",
        true,
        1_700_000_000,
    );
    assert_eq!(r.err(), Some(ApiError::Internal(InternalError::TokenCreation)));
    assert!(tracker.get("key").is_none());
}
