use axum::http::HeaderMap;
use blog_backend::auth::{create_jwt_at, Claims};
use blog_backend::csrf::{issue_csrf_token, CsrfGuard};
use blog_backend::errors::{ApiError, AuthError, CsrfError, InternalError};
use blog_backend::gate::{
    authenticate, authenticate_at, authenticate_optional_at, ensure_admin, let_through,
};
use blog_backend::revocation::{cleanup_due, RevocationStore};
use blog_backend::session::{logout, me};

const SECRET: &str = "this_is_a_very_long_test_secret_for_jwt_checks_12345_ABC_abc_!!!";
const CSRF_SECRET: &[u8] = b"this_is_a_very_long_test_secret_for_csrf_checks_12345";
const NOW: i64 = 1_700_000_000;

fn bearer(token: &str) -> HeaderMap {
    let mut headers = HeaderMap::new();
    headers.insert("authorization", format!("Bearer {}", token).parse().unwrap());
    headers
}

#[test]
fn blacklisting_twice_is_harmless() {
    let mut store = RevocationStore::new();
    assert!(!store.is_blacklisted("t"));
    store.blacklist("t", 100);
    assert!(store.is_blacklisted("t"));
    store.blacklist("t", 100);
    assert!(store.is_blacklisted("t"));
    store.blacklist("t", 5);
    assert!(store.is_blacklisted("t"));
    assert!(!store.is_blacklisted("u"));
    assert!(!store.is_blacklisted(""));
    // the first expiry stands
    store.cleanup(50);
    assert!(store.is_blacklisted("t"));
}

#[test]
fn cleanup_drops_what_has_expired_and_nothing_else() {
    let mut store = RevocationStore::new();
    store.blacklist("a", 100);
    store.blacklist("b", 200);
    store.blacklist("c", 100);
    store.blacklist("d", 300);
    store.blacklist("e", 99);
    store.cleanup(100);
    assert!(store.is_blacklisted("a"));
    assert!(store.is_blacklisted("b"));
    assert!(store.is_blacklisted("c"));
    assert!(store.is_blacklisted("d"));
    assert!(!store.is_blacklisted("e"));
    store.cleanup(201);
    assert!(!store.is_blacklisted("a"));
    assert!(!store.is_blacklisted("b"));
    assert!(!store.is_blacklisted("c"));
    assert!(store.is_blacklisted("d"));
    store.cleanup(i64::MAX);
    assert!(!store.is_blacklisted("d"));
    store.cleanup(0);
}

#[test]
fn cleanup_runs_about_once_in_a_hundred() {
    assert!(cleanup_due(0));
    assert!(cleanup_due(100));
    assert!(cleanup_due(4_294_967_200));
    assert!(!cleanup_due(1));
    assert!(!cleanup_due(99));
    assert_eq!((0..1000).filter(|n| cleanup_due(*n)).count(), 10);
}

#[test]
fn a_request_needs_a_sound_unexpired_unrevoked_token() {
    let mut store = RevocationStore::new();
    let token = create_jwt_at("alice", "admin", SECRET, NOW).unwrap();

    let none = HeaderMap::new();
    assert_eq!(
        authenticate_at(&none, SECRET, &store, NOW).unwrap_err(),
        ApiError::Unauthenticated(AuthError::MissingToken)
    );
    assert_eq!(
        authenticate(&none, SECRET, &store).unwrap_err(),
        ApiError::Unauthenticated(AuthError::MissingToken)
    );

    let headers = bearer(&token);
    let claims = authenticate_at(&headers, SECRET, &store, NOW).unwrap();
    assert_eq!(claims.sub, "alice");
    assert_eq!(claims.role, "admin");
    assert_eq!(claims.exp, (NOW + 86400) as u64);

    assert_eq!(
        authenticate_at(&headers, SECRET, &store, NOW + 86400 + 61).unwrap_err(),
        ApiError::Unauthenticated(AuthError::ExpiredToken)
    );
    assert_eq!(
        authenticate_at(&bearer("junk"), SECRET, &store, NOW).unwrap_err(),
        ApiError::Unauthenticated(AuthError::InvalidToken)
    );

    store.blacklist(&token, NOW + 86400);
    let e = authenticate_at(&headers, SECRET, &store, NOW).unwrap_err();
    assert_eq!(e, ApiError::Unauthenticated(AuthError::RevokedToken));
    assert_eq!(e.status(), 401);

    let mut by_cookie = HeaderMap::new();
    by_cookie.insert("cookie", format!("ltcms_session={}", token).parse().unwrap());
    assert_eq!(
        authenticate_at(&by_cookie, SECRET, &store, NOW).unwrap_err(),
        ApiError::Unauthenticated(AuthError::RevokedToken)
    );
    let other = create_jwt_at("bob", "user", SECRET, NOW).unwrap();
    by_cookie.insert("cookie", format!("ltcms_session={}", other).parse().unwrap());
    assert_eq!(authenticate_at(&by_cookie, SECRET, &store, NOW).unwrap().sub, "bob");
}

#[test]
fn optional_authentication_tells_anonymous_from_broken() {
    let store = RevocationStore::new();
    let none = HeaderMap::new();
    assert!(authenticate_optional_at(&none, SECRET, &store, NOW).unwrap().0.is_none());
    let token = create_jwt_at("alice", "admin", SECRET, NOW).unwrap();
    let claims = authenticate_optional_at(&bearer(&token), SECRET, &store, NOW).unwrap().0.unwrap();
    assert_eq!(claims.sub, "alice");
    assert_eq!(
        authenticate_optional_at(&bearer("junk"), SECRET, &store, NOW).err(),
        Some(ApiError::Unauthenticated(AuthError::InvalidToken))
    );
}

#[test]
fn storage_failure_lets_nobody_in() {
    let claims = Claims::issued_at("alice".to_string(), "admin".to_string(), NOW);
    assert_eq!(let_through(claims.clone(), Some(false)).unwrap().sub, "alice");
    assert_eq!(
        let_through(claims.clone(), Some(true)).unwrap_err(),
        ApiError::Unauthenticated(AuthError::RevokedToken)
    );
    let e = let_through(claims, None).unwrap_err();
    assert_eq!(e, ApiError::Internal(InternalError::Storage));
    assert_eq!(e.status(), 500);
}

#[test]
fn only_admins_are_admins() {
    let admin = Claims::issued_at("alice".to_string(), "admin".to_string(), NOW);
    let user = Claims::issued_at("bob".to_string(), "user".to_string(), NOW);
    let shouting = Claims::issued_at("eve".to_string(), "Admin".to_string(), NOW);
    assert_eq!(ensure_admin(&admin), Ok(()));
    assert_eq!(ensure_admin(&user), Err(ApiError::InsufficientPermissions));
    assert_eq!(ensure_admin(&shouting), Err(ApiError::InsufficientPermissions));
}

#[test]
fn logout_revokes_header_and_cookie_tokens_and_clears_both_cookies() {
    let mut store = RevocationStore::new();
    let from_header = create_jwt_at("alice", "admin", SECRET, NOW).unwrap();
    let from_cookie = create_jwt_at("alice", "admin", SECRET, NOW + 1).unwrap();
    let mut headers = bearer(&from_header);
    headers.insert("cookie", format!("ltcms_session={}; ltcms_csrf=x", from_cookie).parse().unwrap());
    let claims = authenticate_at(&headers, SECRET, &store, NOW).unwrap();

    let (status, answer) = logout(&headers, &claims, &mut store, true);
    assert_eq!(status, 204);
    assert!(store.is_blacklisted(&from_header));
    assert!(store.is_blacklisted(&from_cookie));
    assert!(!store.is_blacklisted("x"));
    let cookies: Vec<String> =
        answer.get_all("set-cookie").iter().map(|v| v.to_str().unwrap().to_string()).collect();
    assert_eq!(
        cookies,
        vec![
            "ltcms_session=; HttpOnly; SameSite=Lax; Secure; Path=/; Max-Age=0; Expires=Thu, 01 Jan 1970 00:00:00 GMT".to_string(),
            "ltcms_csrf=; SameSite=Strict; Secure; Path=/; Max-Age=0; Expires=Thu, 01 Jan 1970 00:00:00 GMT".to_string(),
        ]
    );
    assert_eq!(answer.len(), 2);
    assert_eq!(
        authenticate_at(&headers, SECRET, &store, NOW).unwrap_err(),
        ApiError::Unauthenticated(AuthError::RevokedToken)
    );

    // the entries live until the session would have expired
    store.cleanup(NOW + 86400);
    assert!(store.is_blacklisted(&from_header));
    store.cleanup(NOW + 86401);
    assert!(!store.is_blacklisted(&from_header));

    // logging out again, or without any token, does not fail
    let (status, _) = logout(&headers, &claims, &mut store, false);
    assert_eq!(status, 204);
    let (status, answer) = logout(&HeaderMap::new(), &claims, &mut store, false);
    assert_eq!(status, 204);
    assert_eq!(answer.get_all("set-cookie").iter().count(), 2);
}

#[test]
fn me_names_the_user_and_refreshes_the_csrf_cookie() {
    let claims = Claims::issued_at("alice".to_string(), "admin".to_string(), NOW);
    let (headers, body) = me(claims, CSRF_SECRET, false);
    assert_eq!(body.username, "alice");
    assert_eq!(body.role, "admin");
    let cookies: Vec<String> =
        headers.get_all("set-cookie").iter().map(|v| v.to_str().unwrap().to_string()).collect();
    assert_eq!(cookies.len(), 1);
    assert!(cookies[0].starts_with("ltcms_csrf=v1|YWxpY2U|"));
    assert!(cookies[0].ends_with("; SameSite=Strict; Path=/; Max-Age=21600"));

    let nameless = Claims::issued_at("".to_string(), "admin".to_string(), NOW);
    let (headers, body) = me(nameless, CSRF_SECRET, false);
    assert_eq!(body.username, "");
    assert!(headers.is_empty());
}

#[test]
fn logout_needs_the_csrf_token_in_header_and_cookie() {
    let mut store = RevocationStore::new();
    let token =
        create_jwt_at("admin", "admin", SECRET, blog_backend::clock::current_unix_time()).unwrap();
    let csrf = issue_csrf_token("admin", CSRF_SECRET).unwrap();

    let mut headers = HeaderMap::new();
    headers.insert(
        "cookie",
        format!("ltcms_session={}; ltcms_csrf={}", token, csrf).parse().unwrap(),
    );
    let claims = authenticate(&headers, SECRET, &store).unwrap();

    let refused = CsrfGuard::check("POST", Some(&claims), &headers, CSRF_SECRET).err().unwrap();
    assert_eq!(refused, CsrfError::MissingHeader);
    assert_eq!(ApiError::Forbidden(refused).status(), 403);
    assert!(!store.is_blacklisted(&token));

    headers.insert("x-csrf-token", csrf.parse().unwrap());
    assert!(CsrfGuard::check("POST", Some(&claims), &headers, CSRF_SECRET).is_ok());
    let (status, answer) = logout(&headers, &claims, &mut store, true);
    assert_eq!(status, 204);
    let cookies: Vec<String> =
        answer.get_all("set-cookie").iter().map(|v| v.to_str().unwrap().to_string()).collect();
    assert_eq!(cookies.len(), 2);
    assert!(cookies[0].starts_with("ltcms_session=;"));
    assert!(cookies[1].starts_with("ltcms_csrf=;"));
    for cookie in &cookies {
        assert!(cookie.contains("Max-Age=0"));
        assert!(cookie.ends_with("Expires=Thu, 01 Jan 1970 00:00:00 GMT"));
    }
    assert!(store.is_blacklisted(&token));
    assert!(authenticate(&headers, SECRET, &store).is_err());
}

#[test]
fn tokens_to_revoke_are_found_once() {
    let mut headers = HeaderMap::new();
    assert!(blog_backend::session::tokens_to_revoke(&headers).is_empty());
    headers.insert("cookie", "ltcms_session=abc".parse().unwrap());
    assert_eq!(blog_backend::session::tokens_to_revoke(&headers), vec!["abc".to_string()]);
    headers.insert("authorization", "Bearer abc".parse().unwrap());
    assert_eq!(blog_backend::session::tokens_to_revoke(&headers), vec!["abc".to_string()]);
    headers.insert("authorization", "Bearer xyz".parse().unwrap());
    assert_eq!(
        blog_backend::session::tokens_to_revoke(&headers),
        vec!["xyz".to_string(), "abc".to_string()]
    );
    headers.remove("cookie");
    assert_eq!(blog_backend::session::tokens_to_revoke(&headers), vec!["xyz".to_string()]);
    assert_eq!(blog_backend::session::expiry_seconds(5), 5);
    assert_eq!(blog_backend::session::expiry_seconds(u64::MAX), i64::MAX);
    assert_eq!(blog_backend::session::expiry_seconds(i64::MAX as u64), i64::MAX);
}
