use blog_backend::content::errors::ContentError;
use blog_backend::content::posts::{prepare_post, prepare_post_update};
use blog_backend::content::tutorials::{merge_tutorial_update, new_tutorial_id, prepare_tutorial};
use blog_backend::models::{
    CreateSitePostRequest, CreateTutorialRequest, Tutorial, UpdateSitePostRequest,
    UpdateTutorialRequest,
};

fn stored() -> Tutorial {
    Tutorial {
        id: "t1".to_string(),
        title: " Old title ".to_string(),
        description: "Old description".to_string(),
        icon: "Terminal".to_string(),
        color: "from-blue-500 to-red-500".to_string(),
        topics: "[\"shell\",\"files\"]".to_string(),
        content: "Old content".to_string(),
        version: 4,
        created_at: "c".to_string(),
        updated_at: "u".to_string(),
    }
}

fn no_change() -> UpdateTutorialRequest {
    UpdateTutorialRequest {
        title: None,
        description: None,
        icon: None,
        color: None,
        topics: None,
        content: None,
    }
}

#[test]
fn an_empty_change_keeps_everything_and_raises_the_version() {
    let change = merge_tutorial_update(&stored(), no_change()).ok().unwrap();
    assert_eq!(change.title, "Old title");
    assert_eq!(change.description, "Old description");
    assert_eq!(change.content, "Old content");
    assert_eq!(change.icon, "Terminal");
    assert_eq!(change.color, "from-blue-500 to-red-500");
    assert_eq!(change.topics, vec!["shell".to_string(), "files".to_string()]);
    assert_eq!(change.topics_json, "[\"shell\",\"files\"]");
    assert_eq!(change.version, 5);
}

#[test]
fn a_change_replaces_what_it_names() {
    let mut payload = no_change();
    payload.title = Some("  New title ".to_string());
    payload.icon = Some("Shield".to_string());
    payload.topics = Some(vec![" Security ".to_string(), "".to_string(), "ssh".to_string()]);
    let change = merge_tutorial_update(&stored(), payload).ok().unwrap();
    assert_eq!(change.title, "New title");
    assert_eq!(change.description, "Old description");
    assert_eq!(change.icon, "Shield");
    assert_eq!(change.topics, vec!["Security".to_string(), "ssh".to_string()]);
    assert_eq!(change.topics_json, "[\"Security\",\"ssh\"]");
    assert_eq!(change.version, 5);
}

#[test]
fn a_change_is_checked_in_order() {
    let check = |edit: &dyn Fn(&mut UpdateTutorialRequest), record: Tutorial| {
        let mut payload = no_change();
        edit(&mut payload);
        merge_tutorial_update(&record, payload).err()
    };
    assert_eq!(
        check(&|p| { p.title = Some("  ".to_string()); p.description = Some("".to_string()); }, stored()),
        Some(ContentError::TitleEmpty)
    );
    assert_eq!(
        check(&|p| { p.description = Some("".to_string()); p.content = Some("".to_string()); }, stored()),
        Some(ContentError::DescriptionEmpty)
    );
    assert_eq!(check(&|p| p.content = Some("\n".to_string()), stored()), Some(ContentError::ContentEmpty));
    assert_eq!(check(&|p| p.title = Some("t".repeat(201)), stored()), Some(ContentError::TitleTooLong));
    assert_eq!(check(&|p| p.icon = Some("Rocket".to_string()), stored()), Some(ContentError::UnknownIcon));
    assert_eq!(check(&|p| p.color = Some("red".to_string()), stored()), Some(ContentError::ColorShape));
    assert_eq!(
        check(&|p| p.topics = Some(vec!["a".to_string(), "A".to_string()]), stored()),
        Some(ContentError::DuplicateTopics)
    );
    assert_eq!(check(&|p| p.topics = Some(vec![]), stored()), Some(ContentError::NoTopics));

    let mut full = stored();
    full.version = i64::MAX;
    let e = check(&|_| {}, full).unwrap();
    assert_eq!(e, ContentError::VersionOverflow);
    assert_eq!(e.status(), 500);
    assert_eq!(e.message(), "Tutorial version overflow");

    let mut broken = stored();
    broken.topics = "oops".to_string();
    assert_eq!(check(&|_| {}, broken.clone()), Some(ContentError::StoredTopicsUnreadable));
    assert_eq!(check(&|p| p.topics = Some(vec!["x".to_string()]), broken), None);

    let mut blank = stored();
    blank.title = "   ".to_string();
    assert_eq!(check(&|_| {}, blank), Some(ContentError::TitleEmpty));
    assert_eq!(ContentError::TitleEmpty.status(), 400);
    assert_eq!(ContentError::UnknownSection.status(), 404);
}

#[test]
fn a_new_tutorial_is_prepared() {
    let payload = CreateTutorialRequest {
        title: " Title ".to_string(),
        description: "Description".to_string(),
        icon: "Server".to_string(),
        color: "from-a via-b to-c".to_string(),
        topics: vec![" one ".to_string(), "two".to_string()],
        content: " Content\n".to_string(),
        id: Some("  intro-1 ".to_string()),
    };
    let (id, change) = prepare_tutorial(&payload).ok().unwrap();
    assert_eq!(id, "intro-1");
    assert_eq!(change.title, "Title");
    assert_eq!(change.description, "Description");
    assert_eq!(change.content, "Content");
    assert_eq!(change.icon, "Server");
    assert_eq!(change.color, "from-a via-b to-c");
    assert_eq!(change.topics, vec!["one".to_string(), "two".to_string()]);
    assert_eq!(change.topics_json, "[\"one\",\"two\"]");
    assert_eq!(change.version, 1);

    let mut bad = CreateTutorialRequest { id: Some("a b".to_string()), ..clone_request(&payload) };
    assert_eq!(prepare_tutorial(&bad).err(), Some(ContentError::TutorialIdCharacters));
    bad.id = Some("  ".to_string());
    assert_eq!(prepare_tutorial(&bad).err(), Some(ContentError::TutorialIdLength));
    bad.icon = "Nope".to_string();
    assert_eq!(prepare_tutorial(&bad).err(), Some(ContentError::UnknownIcon));
    bad.title = "".to_string();
    assert_eq!(prepare_tutorial(&bad).err(), Some(ContentError::TitleEmpty));

    let generated = CreateTutorialRequest { id: None, ..clone_request(&payload) };
    let (first, _) = prepare_tutorial(&generated).ok().unwrap();
    let (second, _) = prepare_tutorial(&generated).ok().unwrap();
    assert_eq!(first.len(), 36);
    assert_ne!(first, second);
    assert_eq!(new_tutorial_id(Some(" x ")), Ok("x".to_string()));
    assert_eq!(new_tutorial_id(None).unwrap().len(), 36);
}

fn clone_request(r: &CreateTutorialRequest) -> CreateTutorialRequest {
    CreateTutorialRequest {
        title: r.title.clone(),
        description: r.description.clone(),
        icon: r.icon.clone(),
        color: r.color.clone(),
        topics: r.topics.clone(),
        content: r.content.clone(),
        id: r.id.clone(),
    }
}

#[test]
fn a_new_post_is_prepared() {
    let payload = CreateSitePostRequest {
        title: "  Hello World ".to_string(),
        slug: " Hello-World ".to_string(),
        excerpt: Some("  short  ".to_string()),
        content_markdown: " text ".to_string(),
        is_published: true,
        allow_comments: false,
        published_at: Some("2023-01-01".to_string()),
        order_index: Some(3),
    };
    let post = prepare_post(payload).ok().unwrap();
    assert_eq!(post.title, "Hello World");
    assert_eq!(post.slug, "hello-world");
    assert_eq!(post.excerpt, Some("short".to_string()));
    assert_eq!(post.content_markdown, " text ");
    assert!(post.is_published);
    assert!(!post.allow_comments);
    assert_eq!(post.published_at, Some("2023-01-01".to_string()));
    assert_eq!(post.order_index, Some(3));

    let blank = CreateSitePostRequest {
        title: " ".to_string(),
        slug: "".to_string(),
        excerpt: None,
        content_markdown: "".to_string(),
        is_published: false,
        allow_comments: true,
        published_at: None,
        order_index: None,
    };
    assert_eq!(prepare_post(blank).err(), Some(ContentError::TitleEmpty));
}

#[test]
fn a_post_change_is_prepared() {
    let none = || UpdateSitePostRequest {
        title: None,
        slug: None,
        excerpt: None,
        content_markdown: None,
        is_published: None,
        allow_comments: None,
        published_at: None,
        order_index: None,
    };
    let unchanged = prepare_post_update(none()).ok().unwrap();
    assert_eq!(unchanged.title, None);
    assert_eq!(unchanged.slug, None);

    let mut payload = none();
    payload.title = Some(" New ".to_string());
    payload.slug = Some(" New-Slug ".to_string());
    payload.excerpt = Some(" kept as is ".to_string());
    payload.published_at = Some(None);
    payload.is_published = Some(true);
    let change = prepare_post_update(payload).ok().unwrap();
    assert_eq!(change.title, Some("New".to_string()));
    assert_eq!(change.slug, Some("new-slug".to_string()));
    assert_eq!(change.excerpt, Some(" kept as is ".to_string()));
    assert_eq!(change.published_at, Some(None));
    assert_eq!(change.is_published, Some(true));

    let mut bad = none();
    bad.title = Some(" ".to_string());
    bad.slug = Some(" ".to_string());
    assert_eq!(prepare_post_update(bad).err(), Some(ContentError::SlugEmpty));
    let mut bad = none();
    bad.title = Some(" ".to_string());
    bad.excerpt = Some("e".repeat(501));
    assert_eq!(prepare_post_update(bad).err(), Some(ContentError::ExcerptTooLong));
    let mut bad = none();
    bad.title = Some(" ".to_string());
    bad.content_markdown = Some("c".repeat(100_001));
    assert_eq!(prepare_post_update(bad).err(), Some(ContentError::ContentTooLong));
    let mut bad = none();
    bad.title = Some(" ".to_string());
    assert_eq!(prepare_post_update(bad).err(), Some(ContentError::TitleEmpty));
    let mut bad = none();
    bad.title = Some("t".repeat(201));
    assert_eq!(prepare_post_update(bad).err(), Some(ContentError::TitleTooLong));
    let mut bad = none();
    bad.slug = Some("s".repeat(101));
    assert_eq!(prepare_post_update(bad).err(), Some(ContentError::SlugTooLong));
}
