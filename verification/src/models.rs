//! The records and the request and response bodies of the service, as plain data.

use vstd::prelude::*;

verus! {

/// A registered user.
#[derive(Debug)]
pub struct User {
    pub id: i64,
    pub username: String,
    /// The bcrypt hash of the password. It never leaves the server.
    pub password_hash: String,
    /// The user's role, such as `admin`.
    pub role: String,
    pub created_at: String,
}

/// The body of a login request.
#[derive(Debug)]
pub struct LoginRequest {
    pub username: String,
    pub password: String,
}

/// What a client learns about a user: never the password hash.
#[derive(Debug)]
pub struct UserResponse {
    pub username: String,
    pub role: String,
}

/// The body of the answer to a good login.
#[derive(Debug)]
pub struct LoginResponse {
    /// The identity token.
    pub token: String,
    pub user: UserResponse,
}

impl User {
    /// The public face of a user.
    pub fn to_response(&self) -> (r: UserResponse)
        ensures
            r.username@ == self.username@,
            r.role@ == self.role@,
    {
        UserResponse { username: self.username.clone(), role: self.role.clone() }
    }
}

/// The body of the answer to an upload.
#[derive(Debug)]
pub struct UploadResponse {
    pub url: String,
}

/// A comment on a tutorial or a post.
#[derive(Debug)]
pub struct Comment {
    pub id: String,
    pub tutorial_id: Option<String>,
    pub post_id: Option<String>,
    pub author: String,
    pub content: String,
    pub created_at: String,
    /// Upvotes minus downvotes.
    pub votes: i64,
    pub is_admin: bool,
}

/// The body of a request to add a comment.
pub struct CreateCommentRequest {
    pub content: String,
    pub author: Option<String>,
}

/// The query of a request to list comments.
pub struct CommentListQuery {
    pub limit: i64,
    pub offset: i64,
    pub sort: Option<String>,
}

/// The query of a search for tutorials.
pub struct SearchQuery {
    pub q: String,
    pub topic: Option<String>,
    pub limit: i64,
}

/// The query of a request to list tutorials.
pub struct TutorialListQuery {
    pub limit: i64,
    pub offset: i64,
}

/// A section of site content as stored.
#[derive(Debug)]
pub struct SiteContent {
    pub section: String,
    pub content_json: String,
    pub updated_at: String,
}

/// A page as stored.
#[derive(Debug, Clone)]
pub struct SitePage {
    pub id: String,
    pub slug: String,
    pub title: String,
    pub description: String,
    pub nav_label: Option<String>,
    pub show_in_nav: bool,
    pub order_index: i64,
    pub is_published: bool,
    pub hero_json: String,
    pub layout_json: String,
    pub created_at: String,
    pub updated_at: String,
}

/// A post as stored.
#[derive(Debug, Clone)]
pub struct SitePost {
    pub id: String,
    pub page_id: String,
    pub title: String,
    pub slug: String,
    pub excerpt: String,
    pub content_markdown: String,
    pub is_published: bool,
    pub allow_comments: bool,
    pub published_at: Option<String>,
    pub order_index: i64,
    pub created_at: String,
    pub updated_at: String,
}

/// A post as sent to clients.
#[derive(Debug)]
pub struct SitePostResponse {
    pub id: String,
    pub page_id: String,
    pub title: String,
    pub slug: String,
    pub excerpt: String,
    pub content_markdown: String,
    pub is_published: bool,
    pub allow_comments: bool,
    pub published_at: Option<String>,
    pub order_index: i64,
    pub created_at: String,
    pub updated_at: String,
}

/// A list of posts.
#[derive(Debug)]
pub struct SitePostListResponse {
    pub items: Vec<SitePostResponse>,
}

/// The body of a request to create a post.
#[derive(Debug)]
pub struct CreateSitePostRequest {
    pub title: String,
    pub slug: String,
    pub excerpt: Option<String>,
    pub content_markdown: String,
    pub is_published: bool,
    pub allow_comments: bool,
    pub published_at: Option<String>,
    pub order_index: Option<i64>,
}

/// The body of a request to change a post. A field left out stays as it is;
/// `published_at` can also be cleared.
#[derive(Debug)]
pub struct UpdateSitePostRequest {
    pub title: Option<String>,
    pub slug: Option<String>,
    pub excerpt: Option<String>,
    pub content_markdown: Option<String>,
    pub is_published: Option<bool>,
    pub allow_comments: Option<bool>,
    pub published_at: Option<Option<String>>,
    pub order_index: Option<i64>,
}

/// One entry of the navigation.
#[derive(Debug)]
pub struct NavigationItemResponse {
    pub id: String,
    pub slug: String,
    pub label: String,
    pub order_index: i64,
}

/// The navigation.
#[derive(Debug)]
pub struct NavigationResponse {
    pub items: Vec<NavigationItemResponse>,
}

/// A tutorial as stored. Its topics are kept as JSON text.
#[derive(Debug, Clone)]
pub struct Tutorial {
    pub id: String,
    pub title: String,
    pub description: String,
    pub icon: String,
    pub color: String,
    pub topics: String,
    pub content: String,
    pub version: i64,
    pub created_at: String,
    pub updated_at: String,
}

/// The body of a request to create a tutorial.
#[derive(Debug)]
pub struct CreateTutorialRequest {
    pub title: String,
    pub description: String,
    pub icon: String,
    pub color: String,
    pub topics: Vec<String>,
    pub content: String,
    pub id: Option<String>,
}

/// The body of a request to change a tutorial. A field left out stays as it is.
#[derive(Debug)]
pub struct UpdateTutorialRequest {
    pub title: Option<String>,
    pub description: Option<String>,
    pub icon: Option<String>,
    pub color: Option<String>,
    pub topics: Option<Vec<String>>,
    pub content: Option<String>,
}

/// A tutorial as sent to clients, with its topics as a list.
#[derive(Debug)]
pub struct TutorialResponse {
    pub id: String,
    pub title: String,
    pub description: String,
    pub icon: String,
    pub color: String,
    pub topics: Vec<String>,
    pub content: String,
    pub version: i64,
    pub created_at: String,
    pub updated_at: String,
}

/// A tutorial as listed: everything but the content.
#[derive(Debug)]
pub struct TutorialSummaryResponse {
    pub id: String,
    pub title: String,
    pub description: String,
    pub icon: String,
    pub color: String,
    pub topics: Vec<String>,
    pub version: i64,
    pub created_at: String,
    pub updated_at: String,
}

} // verus!
