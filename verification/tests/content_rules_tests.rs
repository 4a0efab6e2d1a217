use blog_backend::auth::Claims;
use blog_backend::content::comments::{comment_author, comment_wait, may_delete_comment, validate_guest_name};
use blog_backend::content::errors::ContentError;
use blog_backend::cors::{default_frontend_origins, origin_is_allowed, parse_allowed_origins, text_is_value};

fn claims(name: &str, role: &str) -> Claims {
    Claims::issued_at(name.to_string(), role.to_string(), 1_700_000_000)
}

#[test]
fn guest_names() {
    assert_eq!(validate_guest_name("  Jane Doe 2 "), Ok("Jane Doe 2".to_string()));
    assert_eq!(validate_guest_name("J"), Err(ContentError::GuestNameLength));
    assert_eq!(validate_guest_name("   "), Err(ContentError::GuestNameLength));
    assert_eq!(validate_guest_name(&"a".repeat(50)), Ok("a".repeat(50)));
    assert_eq!(validate_guest_name(&"a".repeat(51)), Err(ContentError::GuestNameLength));
    assert_eq!(validate_guest_name("Jane_Doe"), Err(ContentError::GuestNameCharacters));
    assert_eq!(validate_guest_name("Jäne"), Err(ContentError::GuestNameCharacters));
    assert_eq!(validate_guest_name("a\tb"), Err(ContentError::GuestNameCharacters));
    for reserved in ["admin", "Admin", " ADMINISTRATOR ", "root", "RooT"] {
        assert_eq!(validate_guest_name(reserved), Err(ContentError::GuestNameReserved));
    }
    assert_eq!(validate_guest_name("admin2"), Ok("admin2".to_string()));
    assert_eq!(ContentError::GuestNameReserved.message(), "This name is reserved");
}

#[test]
fn comment_signatures() {
    let admin = claims("alice", "admin");
    let user = claims("bob", "user");
    assert_eq!(
        comment_author(Some(&admin), Some("ignored"), "1.2.3.4"),
        Ok(("Administrator".to_string(), "alice".to_string()))
    );
    assert_eq!(
        comment_author(Some(&user), None, "1.2.3.4"),
        Ok(("bob".to_string(), "bob".to_string()))
    );
    assert_eq!(
        comment_author(None, Some(" Jane "), "1.2.3.4"),
        Ok(("Jane".to_string(), "1.2.3.4".to_string()))
    );
    assert_eq!(comment_author(None, None, "1.2.3.4"), Err(ContentError::GuestNameRequired));
    assert_eq!(comment_author(None, Some("root"), "1.2.3.4"), Err(ContentError::GuestNameReserved));
}

#[test]
fn comments_are_a_minute_apart() {
    assert_eq!(comment_wait(None, 100), None);
    assert_eq!(comment_wait(Some(100), 100), Some(60));
    assert_eq!(comment_wait(Some(100), 101), Some(59));
    assert_eq!(comment_wait(Some(100), 159), Some(1));
    assert_eq!(comment_wait(Some(100), 160), None);
    assert_eq!(comment_wait(Some(100), 90), Some(70));
    assert_eq!(comment_wait(Some(i64::MAX), i64::MIN), Some(i64::MAX));
    assert_eq!(comment_wait(Some(i64::MIN), i64::MAX), None);
}

#[test]
fn comments_are_deleted_by_their_author_or_an_admin() {
    assert!(may_delete_comment(&claims("alice", "admin"), "bob"));
    assert!(may_delete_comment(&claims("bob", "user"), "bob"));
    assert!(!may_delete_comment(&claims("bob", "user"), "alice"));
    assert!(!may_delete_comment(&claims("bob", "Admin"), "alice"));
}

#[test]
fn origins_are_filtered() {
    let given: Vec<String> = [
        " http://localhost:5173 ",
        "https://example.org",
        "",
        "   ",
        "ftp://example.org",
        "example.org",
        "https://",
        "http://exa mple.org",
        "http://[::1",
        "https://example.org/path?x=1",
        "HTTP://upper.example",
    ]
    .iter()
    .map(|s| s.to_string())
    .collect();
    assert_eq!(
        parse_allowed_origins(&given),
        vec![
            "http://localhost:5173".to_string(),
            "https://example.org".to_string(),
            "https://example.org/path?x=1".to_string(),
        ]
    );
    assert_eq!(parse_allowed_origins(&Vec::new()), Vec::<String>::new());
    assert_eq!(
        default_frontend_origins(),
        vec!["http://localhost:5173".to_string(), "http://localhost:3000".to_string()]
    );
    assert_eq!(parse_allowed_origins(&default_frontend_origins()), default_frontend_origins());
    assert!(origin_is_allowed("http://a", true));
    assert!(!origin_is_allowed("http://a", false));
    assert!(!origin_is_allowed("http://a\n", true));
    assert!(!origin_is_allowed("ws://a", true));
}

#[test]
fn header_value_texts() {
    assert!(text_is_value(""));
    assert!(text_is_value("plain text\twith tab"));
    assert!(text_is_value("ünïcode"));
    assert!(!text_is_value("line\nbreak"));
    assert!(!text_is_value("nul\0"));
    assert!(!text_is_value("del\u{7f}"));
}
