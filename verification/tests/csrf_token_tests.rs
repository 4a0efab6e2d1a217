use blog_backend::csrf::{
    issue_csrf_token, issue_csrf_token_with, validate_csrf_token, CsrfGuard,
};
use blog_backend::errors::CsrfError;
use blog_backend::models::LoginRequest;
use blog_backend::secrets::{get_secret, init_csrf_secret, SecretError, SecretKind, SecretStore};

const SECRET: &str = "this_is_a_very_long_test_secret_for_csrf_checks_12345";
const NONCE: &str = "123e4567-e89b-42d3-a456-426614174000";

#[test]
fn test_csrf_token_lifecycle() {
    let mut store = SecretStore::new();
    let _ = init_csrf_secret(&mut store, Some(SECRET));

    let request = LoginRequest {
        username: "testuser".to_string(),
        password: "ValidPassword123!".to_string(),
    };
    let token = issue_csrf_token(&request.username, get_secret(&store)).expect("Failed to issue token");

    assert!(token.starts_with("v1|"));
    let parts: Vec<&str> = token.split('|').collect();
    assert_eq!(parts.len(), 5);
}

#[test]
fn test_csrf_token_wrong_user_fail() {
    let result = issue_csrf_token("", SECRET.as_bytes());
    assert!(result.is_err());
    assert_eq!(result.unwrap_err().message(), "Username required for CSRF token");
}

#[test]
fn test_csrf_initialization_validation() {
    let mut store = SecretStore::new();
    assert_eq!(
        init_csrf_secret(&mut store, Some("short")),
        Err(SecretError::TooShort(SecretKind::Csrf))
    );
}

#[test]
fn issued_token_has_the_documented_shape() {
    let token = issue_csrf_token_with("testuser", SECRET.as_bytes(), 1_700_000_000, NONCE).unwrap();
    let parts: Vec<&str> = token.split('|').collect();
    assert_eq!(parts.len(), 5);
    assert_eq!(parts[0], "v1");
    assert_eq!(parts[1], "dGVzdHVzZXI");
    assert_eq!(parts[2], "1700021600");
    assert_eq!(parts[3], NONCE);
    assert_eq!(parts[4].len(), 43);
    let again = issue_csrf_token_with("testuser", SECRET.as_bytes(), 1_700_000_000, NONCE).unwrap();
    assert_eq!(token, again);
}

#[test]
fn issued_token_validates_for_its_user_until_expiry() {
    let secret = SECRET.as_bytes();
    let token = issue_csrf_token_with("testuser", secret, 1_700_000_000, NONCE).unwrap();
    assert_eq!(validate_csrf_token(&token, "testuser", secret, 1_700_000_000), Ok(()));
    assert_eq!(validate_csrf_token(&token, "testuser", secret, 1_700_021_600), Ok(()));
    assert_eq!(
        validate_csrf_token(&token, "testuser", secret, 1_700_021_601),
        Err(CsrfError::Expired)
    );
}

#[test]
fn token_is_refused_for_another_user() {
    let secret = SECRET.as_bytes();
    let token = issue_csrf_token_with("alice", secret, 1_700_000_000, NONCE).unwrap();
    assert_eq!(
        validate_csrf_token(&token, "bob", secret, 1_700_000_000),
        Err(CsrfError::AccountMismatch)
    );
    assert_eq!(
        validate_csrf_token(&token, "Alice", secret, 1_700_000_000),
        Err(CsrfError::AccountMismatch)
    );
    assert_eq!(
        validate_csrf_token(&token, "", secret, 1_700_000_000),
        Err(CsrfError::AccountMismatch)
    );
}

#[test]
fn flipping_any_bit_of_the_signature_is_refused() {
    let secret = SECRET.as_bytes();
    let token = issue_csrf_token_with("alice", secret, 1_700_000_000, NONCE).unwrap();
    let start = token.rfind('|').unwrap() + 1;
    let bytes = token.as_bytes();
    for index in start..bytes.len() {
        for bit in 0..7 {
            let mut changed = bytes.to_vec();
            changed[index] ^= 1 << bit;
            if let Ok(text) = String::from_utf8(changed) {
                assert!(
                    validate_csrf_token(&text, "alice", secret, 1_700_000_000).is_err(),
                    "accepted {}",
                    text
                );
            }
        }
    }
}

#[test]
fn token_under_another_secret_is_refused() {
    let token = issue_csrf_token_with("alice", SECRET.as_bytes(), 1_700_000_000, NONCE).unwrap();
    assert_eq!(
        validate_csrf_token(&token, "alice", b"another secret that is long enough 0123456789", 1_700_000_000),
        Err(CsrfError::SignatureMismatch)
    );
}

#[test]
fn every_malformation_has_its_error() {
    let secret = SECRET.as_bytes();
    let now = 1_700_000_000;
    let token = issue_csrf_token_with("alice", secret, now, NONCE).unwrap();
    let parts: Vec<&str> = token.split('|').collect();
    let check = |text: String| validate_csrf_token(&text, "alice", secret, now);

    assert_eq!(check("".to_string()), Err(CsrfError::UnsupportedVersion));
    assert_eq!(check("v2".to_string()), Err(CsrfError::UnsupportedVersion));
    assert_eq!(check(token.replacen("v1", "v2", 1)), Err(CsrfError::UnsupportedVersion));
    assert_eq!(check("v1".to_string()), Err(CsrfError::Malformed));
    assert_eq!(check(parts[..4].join("|")), Err(CsrfError::Malformed));
    assert_eq!(check(format!("{}|extra", token)), Err(CsrfError::Malformed));
    assert_eq!(check(format!("{}|", token)), Err(CsrfError::Malformed));
    assert_eq!(
        check(format!("v1|!!!|{}|{}|{}", parts[2], parts[3], parts[4])),
        Err(CsrfError::MalformedUsername)
    );
    assert_eq!(
        check(format!("v1|_w|{}|{}|{}", parts[2], parts[3], parts[4])),
        Err(CsrfError::InvalidUsernameEncoding)
    );
    assert_eq!(
        check(format!("v1|{}|soon|{}|{}", parts[1], parts[3], parts[4])),
        Err(CsrfError::InvalidExpiry)
    );
    assert_eq!(
        check(format!("v1|{}||{}|{}", parts[1], parts[3], parts[4])),
        Err(CsrfError::InvalidExpiry)
    );
    assert_eq!(
        check(format!("v1|{}|99999999999999999999|{}|{}", parts[1], parts[3], parts[4])),
        Err(CsrfError::InvalidExpiry)
    );
    assert_eq!(
        check(format!("v1|{}|{}|{}|{}", parts[1], now - 1, parts[3], parts[4])),
        Err(CsrfError::Expired)
    );
    assert_eq!(
        check(format!("v1|{}|{}|short|{}", parts[1], parts[2], parts[4])),
        Err(CsrfError::NonceTooShort)
    );
    assert_eq!(
        check(format!("v1|{}|{}|{}|***", parts[1], parts[2], parts[3])),
        Err(CsrfError::InvalidSignature)
    );
    assert_eq!(
        check(format!("v1|{}|{}|{}|AAAA", parts[1], parts[2], parts[3])),
        Err(CsrfError::SignatureMismatch)
    );
    assert_eq!(
        check(format!("v1|{}|{}|{}|", parts[1], parts[2], parts[3])),
        Err(CsrfError::SignatureMismatch)
    );
}

#[test]
fn expiry_is_signed_in_its_canonical_form() {
    let secret = SECRET.as_bytes();
    let now = 1_700_000_000;
    let token = issue_csrf_token_with("alice", secret, now, NONCE).unwrap();
    let parts: Vec<&str> = token.split('|').collect();
    let padded = format!("v1|{}|+0{}|{}|{}", parts[1], parts[2], parts[3], parts[4]);
    assert_eq!(validate_csrf_token(&padded, "alice", secret, now), Ok(()));
}

#[test]
fn issue_fails_on_empty_user_and_on_clock_overflow() {
    assert_eq!(
        issue_csrf_token_with("", SECRET.as_bytes(), 0, NONCE),
        Err(CsrfError::UsernameRequired)
    );
    assert_eq!(
        issue_csrf_token_with("a", SECRET.as_bytes(), i64::MAX - 21599, NONCE),
        Err(CsrfError::ExpiryOverflow)
    );
    assert!(issue_csrf_token_with("a", SECRET.as_bytes(), i64::MAX - 21600, NONCE).is_ok());
}

#[test]
fn fresh_tokens_differ_and_validate() {
    let secret = SECRET.as_bytes();
    let before = blog_backend::clock::current_unix_time();
    let first = issue_csrf_token("alice", secret).unwrap();
    let second = issue_csrf_token("alice", secret).unwrap();
    assert_ne!(first, second);
    let nonce = first.split('|').nth(3).unwrap().to_string();
    assert_eq!(nonce.len(), 36);
    assert!(nonce.chars().all(|c| c.is_ascii_hexdigit() || c == '-'));
    assert_eq!(validate_csrf_token(&first, "alice", secret, before), Ok(()));
    assert_eq!(validate_csrf_token(&second, "alice", secret, before + 21600), Ok(()));
    assert_eq!(
        validate_csrf_token(&second, "alice", secret, before + 21600 + 3600),
        Err(CsrfError::Expired)
    );
}

#[test]
fn guard_passes_safe_methods_and_anonymous_requests() {
    let headers = axum::http::HeaderMap::new();
    let secret = SECRET.as_bytes();
    for method in ["GET", "HEAD", "OPTIONS", "TRACE"] {
        assert!(CsrfGuard::check_at(method, None, &headers, secret, 0).is_ok());
    }
    for method in ["POST", "PUT", "DELETE", "PATCH", "get"] {
        assert!(CsrfGuard::check_at(method, None, &headers, secret, 0).is_ok());
    }
}

#[test]
fn guard_enforces_double_submit_for_authenticated_requests() {
    let secret = SECRET.as_bytes();
    let now = 1_700_000_000;
    let claims = blog_backend::auth::Claims::issued_at("alice".to_string(), "admin".to_string(), now);
    let token = issue_csrf_token_with("alice", secret, now, NONCE).unwrap();
    let other = issue_csrf_token_with("bob", secret, now, NONCE).unwrap();

    let mut headers = axum::http::HeaderMap::new();
    assert!(CsrfGuard::check_at("GET", Some(&claims), &headers, secret, now).is_ok());
    assert_eq!(
        CsrfGuard::check_at("POST", Some(&claims), &headers, secret, now).err(),
        Some(CsrfError::MissingHeader)
    );
    headers.insert("x-csrf-token", token.parse().unwrap());
    assert_eq!(
        CsrfGuard::check_at("POST", Some(&claims), &headers, secret, now).err(),
        Some(CsrfError::MissingCookie)
    );
    headers.insert("cookie", format!("ltcms_csrf={}", other).parse().unwrap());
    assert_eq!(
        CsrfGuard::check_at("POST", Some(&claims), &headers, secret, now).err(),
        Some(CsrfError::TokenMismatch)
    );
    headers.insert("cookie", format!("ltcms_csrf={}", token).parse().unwrap());
    assert!(CsrfGuard::check_at("POST", Some(&claims), &headers, secret, now).is_ok());
    assert!(CsrfGuard::check("DELETE", Some(&claims), &headers, secret).is_err());

    headers.insert("x-csrf-token", other.parse().unwrap());
    headers.insert("cookie", format!("ltcms_csrf={}", other).parse().unwrap());
    assert_eq!(
        CsrfGuard::check_at("POST", Some(&claims), &headers, secret, now).err(),
        Some(CsrfError::AccountMismatch)
    );
}
