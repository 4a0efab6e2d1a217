use blog_backend::content::comments::sanitize_comment_content;
use blog_backend::content::errors::ContentError;
use blog_backend::content::posts::{default_allow_comments, map_post, sanitize_slug, validate_post_fields, validate_slug};
use blog_backend::content::site::{allowed_sections, sqlite_file_path, validate_section};
use blog_backend::content::tutorials::{sanitize_topics, validate_color, validate_icon, validate_tutorial_data, validate_tutorial_id};
use blog_backend::models::{SitePost, Tutorial, TutorialResponse, TutorialSummaryResponse};

#[test]
fn test_tutorial_response_conversion() {
    let tutorial = Tutorial {
        id: "t1".to_string(),
        title: "Title".to_string(),
        description: "Desc".to_string(),
        icon: "icon".to_string(),
        color: "#fff".to_string(),
        topics: "[\"topic1\", \"topic2\"]".to_string(),
        content: "Content".to_string(),
        version: 1,
        created_at: "created".to_string(),
        updated_at: "updated".to_string(),
    };

    let response = TutorialResponse::try_from(tutorial).unwrap();
    assert_eq!(response.topics.len(), 2);
    assert_eq!(response.topics[0], "topic1");
    assert_eq!(response.id, "t1");
}

#[test]
fn test_tutorial_summary_conversion() {
    let tutorial = Tutorial {
        id: "t2".to_string(),
        title: "Title2".to_string(),
        description: "Desc2".to_string(),
        icon: "icon2".to_string(),
        color: "#000".to_string(),
        topics: "[]".to_string(),
        content: "Long Content".to_string(),
        version: 2,
        created_at: "c".to_string(),
        updated_at: "u".to_string(),
    };

    let summary = TutorialSummaryResponse::try_from(tutorial).unwrap();
    assert_eq!(summary.topics.len(), 0);
    assert_eq!(summary.id, "t2");
}

#[test]
fn test_tutorial_invalid_topics_json_fallback() {
    let tutorial = Tutorial {
        id: "t3".to_string(),
        title: "T".to_string(),
        description: "D".to_string(),
        icon: "i".to_string(),
        color: "c".to_string(),
        topics: "invalid json".to_string(),
        content: "C".to_string(),
        version: 1,
        created_at: "cr".to_string(),
        updated_at: "up".to_string(),
    };

    let response = TutorialResponse::try_from(tutorial).unwrap();
    assert!(response.topics.is_empty());
}

#[test]
fn conversion_keeps_every_field() {
    let tutorial = Tutorial {
        id: "t1".to_string(),
        title: "Title".to_string(),
        description: "Desc".to_string(),
        icon: "Terminal".to_string(),
        color: "from-a to-b".to_string(),
        topics: "[\"a\",\"b\\\"c\"]".to_string(),
        content: "Content".to_string(),
        version: 7,
        created_at: "created".to_string(),
        updated_at: "updated".to_string(),
    };
    let response = TutorialResponse::try_from(tutorial.clone()).unwrap();
    assert_eq!(response.title, "Title");
    assert_eq!(response.description, "Desc");
    assert_eq!(response.icon, "Terminal");
    assert_eq!(response.color, "from-a to-b");
    assert_eq!(response.topics, vec!["a".to_string(), "b\"c".to_string()]);
    assert_eq!(response.content, "Content");
    assert_eq!(response.version, 7);
    assert_eq!(response.created_at, "created");
    assert_eq!(response.updated_at, "updated");
    let summary = TutorialSummaryResponse::try_from(tutorial).unwrap();
    assert_eq!(summary.topics.len(), 2);
    assert_eq!(summary.version, 7);
    let mut odd = Tutorial {
        id: "t".to_string(),
        title: "T".to_string(),
        description: "D".to_string(),
        icon: "i".to_string(),
        color: "c".to_string(),
        topics: "[1, 2]".to_string(),
        content: "C".to_string(),
        version: 1,
        created_at: "cr".to_string(),
        updated_at: "up".to_string(),
    };
    assert!(TutorialResponse::try_from(odd.clone()).unwrap().topics.is_empty());
    odd.topics = "{\"a\": 1}".to_string();
    assert!(TutorialSummaryResponse::try_from(odd).unwrap().topics.is_empty());
}

#[test]
fn tutorial_ids() {
    assert_eq!(validate_tutorial_id("intro-to_shell.v2"), Ok(()));
    assert_eq!(validate_tutorial_id("über"), Ok(()));
    assert_eq!(validate_tutorial_id(""), Err(ContentError::TutorialIdLength));
    assert_eq!(validate_tutorial_id(&"a".repeat(100)), Ok(()));
    assert_eq!(validate_tutorial_id(&"a".repeat(101)), Err(ContentError::TutorialIdLength));
    assert_eq!(validate_tutorial_id(&"ä".repeat(51)), Err(ContentError::TutorialIdLength));
    assert_eq!(validate_tutorial_id("a b"), Err(ContentError::TutorialIdCharacters));
    assert_eq!(validate_tutorial_id("a/b"), Err(ContentError::TutorialIdCharacters));
    assert_eq!(validate_tutorial_id("../etc"), Err(ContentError::TutorialIdCharacters));
}

#[test]
fn tutorial_texts() {
    assert_eq!(validate_tutorial_data("t", "d", "c"), Ok(()));
    assert_eq!(validate_tutorial_data("  ", "d", "c"), Err(ContentError::TitleEmpty));
    assert_eq!(validate_tutorial_data(&"t".repeat(201), "", ""), Err(ContentError::TitleTooLong));
    assert_eq!(validate_tutorial_data(&format!(" {} ", "t".repeat(200)), "d", "c"), Ok(()));
    assert_eq!(validate_tutorial_data("t", "", "c"), Err(ContentError::DescriptionEmpty));
    assert_eq!(
        validate_tutorial_data("t", &"d".repeat(1001), "c"),
        Err(ContentError::DescriptionTooLong)
    );
    assert_eq!(validate_tutorial_data("t", "d", "\n"), Err(ContentError::ContentEmpty));
    assert_eq!(
        validate_tutorial_data("t", "d", &"c".repeat(100_001)),
        Err(ContentError::ContentTooLong)
    );
    assert_eq!(validate_tutorial_data("t", "d", &"c".repeat(100_000)), Ok(()));
}

#[test]
fn icons_and_colors() {
    for icon in ["Terminal", "FolderTree", "FileText", "Settings", "Shield", "Network", "Database", "Server"] {
        assert_eq!(validate_icon(icon), Ok(()));
    }
    assert_eq!(validate_icon("terminal"), Err(ContentError::UnknownIcon));
    assert_eq!(validate_icon(""), Err(ContentError::UnknownIcon));

    assert_eq!(validate_color("from-blue-500 to-red-500"), Ok(()));
    assert_eq!(validate_color("  from-blue-500   via-white\tto-red-500 "), Ok(()));
    assert_eq!(validate_color("dark:from-blue-500 md:hover:to-red-500"), Ok(()));
    assert_eq!(validate_color(""), Err(ContentError::ColorShape));
    assert_eq!(validate_color("from-blue-500"), Err(ContentError::ColorShape));
    assert_eq!(validate_color("from-a via-b via-c to-d"), Err(ContentError::ColorShape));
    assert_eq!(validate_color("to-red-500 from-blue-500"), Err(ContentError::ColorFrom));
    assert_eq!(validate_color("from- to-red"), Err(ContentError::ColorFrom));
    assert_eq!(validate_color("from-a_b to-red"), Err(ContentError::ColorFrom));
    assert_eq!(validate_color(&format!("from-{} to-red", "a".repeat(32))), Ok(()));
    assert_eq!(validate_color(&format!("from-{} to-red", "a".repeat(33))), Err(ContentError::ColorFrom));
    assert_eq!(validate_color("from-a to-b to-c"), Err(ContentError::ColorVia));
    assert_eq!(validate_color("from-a via-b via-c"), Err(ContentError::ColorTo));
    assert_eq!(validate_color("from-a via-b"), Err(ContentError::ColorTo));
    assert_eq!(validate_color("from-a: to-b"), Err(ContentError::ColorFrom));
}

#[test]
fn topics() {
    let list = |items: &[&str]| items.iter().map(|s| s.to_string()).collect::<Vec<String>>();
    assert_eq!(sanitize_topics(&list(&[" Shell ", "", "  ", "Files"])), Ok(list(&["Shell", "Files"])));
    assert_eq!(sanitize_topics(&list(&[])), Err(ContentError::NoTopics));
    assert_eq!(sanitize_topics(&list(&["", " "])), Err(ContentError::NoTopics));
    assert_eq!(sanitize_topics(&list(&["a", "A"])), Err(ContentError::DuplicateTopics));
    assert_eq!(sanitize_topics(&list(&["a", "b", " a "])), Err(ContentError::DuplicateTopics));
    assert_eq!(sanitize_topics(&list(&["ä", "Ä"])), Ok(list(&["ä", "Ä"])));
    let many: Vec<String> = (0..21).map(|i| format!("t{}", i)).collect();
    assert_eq!(sanitize_topics(&many), Err(ContentError::TooManyTopics));
    assert_eq!(sanitize_topics(&many[..20].to_vec()).unwrap().len(), 20);
    let long = "x".repeat(150);
    assert_eq!(sanitize_topics(&vec![long.clone()]), Ok(vec!["x".repeat(100)]));
    let wide = "ä".repeat(60);
    assert_eq!(sanitize_topics(&vec![wide.clone()]), Ok(vec![wide]));
    let wider = "ä".repeat(120);
    assert_eq!(sanitize_topics(&vec![wider]), Ok(vec!["ä".repeat(100)]));
    assert_eq!(
        sanitize_topics(&vec![format!("{}a", "x".repeat(100)), format!("{}b", "X".repeat(100))]),
        Err(ContentError::DuplicateTopics)
    );
}

#[test]
fn slugs() {
    assert_eq!(sanitize_slug("  My-Post "), "my-post");
    assert_eq!(sanitize_slug("ÄPFEL"), "äpfel");
    assert_eq!(validate_slug("my-post-2"), Ok(()));
    assert_eq!(validate_slug("a"), Ok(()));
    assert_eq!(validate_slug(""), Err(ContentError::SlugCharacters));
    assert_eq!(validate_slug("-a"), Err(ContentError::SlugCharacters));
    assert_eq!(validate_slug("a-"), Err(ContentError::SlugCharacters));
    assert_eq!(validate_slug("a--b"), Err(ContentError::SlugCharacters));
    assert_eq!(validate_slug("-"), Err(ContentError::SlugCharacters));
    assert_eq!(validate_slug("My-Post"), Err(ContentError::SlugCharacters));
    assert_eq!(validate_slug("a_b"), Err(ContentError::SlugCharacters));
    assert_eq!(validate_slug("a b"), Err(ContentError::SlugCharacters));
    assert_eq!(validate_slug("a\n"), Err(ContentError::SlugCharacters));
    assert_eq!(validate_slug(&"a".repeat(100)), Ok(()));
    assert_eq!(validate_slug(&"a".repeat(101)), Err(ContentError::SlugTooLong));
}

#[test]
fn posts() {
    assert_eq!(validate_post_fields("Title", "slug", None, "text"), Ok(()));
    assert_eq!(validate_post_fields(" ", "slug", None, "text"), Err(ContentError::TitleEmpty));
    assert_eq!(
        validate_post_fields(&"t".repeat(201), "slug", None, "text"),
        Err(ContentError::TitleTooLong)
    );
    assert_eq!(validate_post_fields("Title", "  ", None, "text"), Err(ContentError::SlugEmpty));
    assert_eq!(
        validate_post_fields("Title", &"s".repeat(101), None, "text"),
        Err(ContentError::SlugTooLong)
    );
    assert_eq!(
        validate_post_fields("Title", "slug", Some(&"e".repeat(501)), "text"),
        Err(ContentError::ExcerptTooLong)
    );
    assert_eq!(validate_post_fields("Title", "slug", Some(&"e".repeat(500)), ""), Ok(()));
    assert_eq!(
        validate_post_fields("Title", "slug", None, &"c".repeat(100_001)),
        Err(ContentError::ContentTooLong)
    );
    assert!(default_allow_comments());

    let post = SitePost {
        id: "abc-123".to_string(),
        page_id: "page-1".to_string(),
        title: "Title".to_string(),
        slug: "slug".to_string(),
        excerpt: "Excerpt".to_string(),
        content_markdown: "Markdown".to_string(),
        is_published: true,
        allow_comments: false,
        published_at: Some("2023-01-01".to_string()),
        order_index: 3,
        created_at: "created".to_string(),
        updated_at: "updated".to_string(),
    };
    let response = map_post(post);
    assert_eq!(response.id, "abc-123");
    assert_eq!(response.page_id, "page-1");
    assert_eq!(response.title, "Title");
    assert_eq!(response.slug, "slug");
    assert_eq!(response.excerpt, "Excerpt");
    assert_eq!(response.content_markdown, "Markdown");
    assert!(response.is_published);
    assert!(!response.allow_comments);
    assert_eq!(response.published_at, Some("2023-01-01".to_string()));
    assert_eq!(response.order_index, 3);
    assert_eq!(response.created_at, "created");
    assert_eq!(response.updated_at, "updated");
}

#[test]
fn sections() {
    let all = allowed_sections();
    assert_eq!(
        all,
        vec![
            "hero",
            "tutorial_section",
            "header",
            "footer",
            "site_meta",
            "stats",
            "cta_section",
            "settings",
            "login"
        ]
    );
    for section in all {
        assert_eq!(validate_section(section), Ok(()));
    }
    assert_eq!(validate_section("Hero"), Err(ContentError::UnknownSection));
    assert_eq!(validate_section(""), Err(ContentError::UnknownSection));
}

#[test]
fn database_paths() {
    assert_eq!(sqlite_file_path("sqlite:./database.db"), Some("./database.db".to_string()));
    assert_eq!(sqlite_file_path("sqlite:data/app.db?mode=rwc"), Some("data/app.db".to_string()));
    assert_eq!(sqlite_file_path("sqlite:///var/db/app.db"), Some("/var/db/app.db".to_string()));
    assert_eq!(sqlite_file_path("sqlite://data/app.db"), Some("/data/app.db".to_string()));
    assert_eq!(sqlite_file_path("sqlite:////abs.db"), Some("//abs.db".to_string()));
    assert_eq!(sqlite_file_path("sqlite::memory:"), None);
    assert_eq!(sqlite_file_path("sqlite:"), None);
    assert_eq!(sqlite_file_path("sqlite:?mode=memory"), None);
    assert_eq!(sqlite_file_path("sqlite:   "), None);
    assert_eq!(sqlite_file_path("sqlite://"), Some("/".to_string()));
    assert_eq!(sqlite_file_path("postgres://host/db"), None);
    assert_eq!(sqlite_file_path("SQLITE:file.db"), None);
    assert_eq!(sqlite_file_path(""), None);
    assert_eq!(sqlite_file_path("sqlite: a.db "), Some(" a.db ".to_string()));
}

#[test]
fn comments() {
    assert_eq!(sanitize_comment_content("  hello  "), Ok("hello".to_string()));
    assert_eq!(
        sanitize_comment_content("<b>\"a\" & 'b'</b>"),
        Ok("&lt;b&gt;&quot;a&quot; &amp; &#x27;b&#x27;&lt;&#x2F;b&gt;".to_string())
    );
    assert_eq!(sanitize_comment_content("ünï €"), Ok("ünï €".to_string()));
    assert_eq!(sanitize_comment_content(" \n\t"), Err(ContentError::CommentEmpty));
    assert_eq!(sanitize_comment_content(&"c".repeat(1001)), Err(ContentError::CommentTooLong));
    assert_eq!(sanitize_comment_content(&"<".repeat(1000)).unwrap().len(), 4000);
}
