use blog_backend::auth::{
    append_auth_cookie, build_auth_cookie, build_cookie_removal, cookies_should_be_secure,
    extract_token, parse_bearer_token, SameSite, AUTH_COOKIE_NAME,
};
use blog_backend::csrf::csrf_cookie_name;

#[test]
fn test_auth_cookie_properties() {
    let token = "test_token";
    let cookie = build_auth_cookie(token, true);

    assert_eq!(cookie.name(), AUTH_COOKIE_NAME);
    assert_eq!(cookie.value(), token);
    assert_eq!(cookie.path(), Some("/"));
    assert_eq!(cookie.http_only(), Some(true));
}

#[test]
fn test_auth_cookie_removal_properties() {
    let cookie = build_cookie_removal(true);

    assert_eq!(cookie.name(), AUTH_COOKIE_NAME);
    assert_eq!(cookie.value(), "");
    assert!(cookie.expires().is_some());
}

#[test]
fn test_csrf_cookie_name_const() {
    assert_eq!(csrf_cookie_name(), "ltcms_csrf");
}

#[test]
fn auth_cookie_has_all_its_attributes() {
    let cookie = build_auth_cookie("tok", false);
    assert_eq!(cookie.same_site(), Some(SameSite::Lax));
    assert_eq!(cookie.max_age(), Some(86400));
    assert_eq!(cookie.secure(), Some(false));
    assert_eq!(cookie.expires(), None);
    let removal = build_cookie_removal(false);
    assert_eq!(removal.max_age(), Some(0));
    assert_eq!(removal.expires(), Some(0));
    assert_eq!(removal.http_only(), Some(true));
}

#[test]
fn auth_cookie_is_rendered_as_set_cookie_value() {
    let mut headers = axum::http::HeaderMap::new();
    assert!(append_auth_cookie(&mut headers, build_auth_cookie("tok", true)));
    assert!(append_auth_cookie(&mut headers, build_cookie_removal(false)));
    let values: Vec<String> = headers
        .get_all("set-cookie")
        .iter()
        .map(|v| v.to_str().unwrap().to_string())
        .collect();
    assert_eq!(
        values,
        vec![
            "ltcms_session=tok; HttpOnly; SameSite=Lax; Secure; Path=/; Max-Age=86400".to_string(),
            "ltcms_session=; HttpOnly; SameSite=Lax; Path=/; Max-Age=0; Expires=Thu, 01 Jan 1970 00:00:00 GMT"
                .to_string(),
        ]
    );
}

#[test]
fn cookie_with_control_characters_is_left_out() {
    let mut headers = axum::http::HeaderMap::new();
    assert!(!append_auth_cookie(&mut headers, build_auth_cookie("bad\nvalue", true)));
    assert!(headers.is_empty());
}

#[test]
fn cookies_are_secure_unless_switched_off() {
    assert!(cookies_should_be_secure(None));
    assert!(cookies_should_be_secure(Some("true")));
    assert!(cookies_should_be_secure(Some("")));
    assert!(cookies_should_be_secure(Some("0")));
    assert!(!cookies_should_be_secure(Some("false")));
    assert!(!cookies_should_be_secure(Some("  FALSE \n")));
    assert!(!cookies_should_be_secure(Some("False")));
}

#[test]
fn bearer_token_is_parsed() {
    assert_eq!(parse_bearer_token("Bearer abc"), Some("abc".to_string()));
    assert_eq!(parse_bearer_token("  bearer   abc  "), Some("abc".to_string()));
    assert_eq!(parse_bearer_token("BEARER a b"), Some("a b".to_string()));
    assert_eq!(parse_bearer_token("Bearer"), None);
    assert_eq!(parse_bearer_token("Bearer "), None);
    assert_eq!(parse_bearer_token("Bearer    "), None);
    assert_eq!(parse_bearer_token("Basic abc"), None);
    assert_eq!(parse_bearer_token(""), None);
    assert_eq!(parse_bearer_token("Bearer\tabc"), None);
}

#[test]
fn token_is_taken_from_header_first_then_cookie() {
    let mut headers = axum::http::HeaderMap::new();
    assert_eq!(extract_token(&headers), None);
    headers.insert("cookie", "other=1; ltcms_session=from-cookie".parse().unwrap());
    assert_eq!(extract_token(&headers), Some("from-cookie".to_string()));
    headers.insert("authorization", "Bearer from-header".parse().unwrap());
    assert_eq!(extract_token(&headers), Some("from-header".to_string()));
    headers.insert("authorization", "Basic dXNlcg==".parse().unwrap());
    assert_eq!(extract_token(&headers), Some("from-cookie".to_string()));
}
