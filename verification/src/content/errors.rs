//! Why a piece of content is refused.

use vstd::prelude::*;

use crate::models::Tutorial;

verus! {

/// Why a piece of content is refused.
#[derive(Clone, Copy, Debug, PartialEq, Eq, Structural)]
pub enum ContentError {
    SearchWithoutTerms,
    SearchQueryEmpty,
    SearchQueryTooLong,
    TutorialIdLength,
    TutorialIdCharacters,
    TitleEmpty,
    TitleTooLong,
    DescriptionEmpty,
    DescriptionTooLong,
    ContentEmpty,
    ContentTooLong,
    UnknownIcon,
    ColorShape,
    ColorFrom,
    ColorVia,
    ColorTo,
    TooManyTopics,
    DuplicateTopics,
    NoTopics,
    SlugEmpty,
    SlugTooLong,
    SlugCharacters,
    ExcerptTooLong,
    CommentEmpty,
    CommentTooLong,
    UnknownSection,
    GuestNameRequired,
    GuestNameLength,
    GuestNameCharacters,
    GuestNameReserved,
    VersionOverflow,
    StoredTopicsUnreadable,
    TopicsUnwritable,
    NavLabelTooLong,
    HeroTooLarge,
    LayoutTooLarge,
    SectionTooLarge,
}

/// The text of each refusal.
pub open spec fn content_error_text(e: ContentError) -> Seq<char> {
    match e {
        ContentError::SearchWithoutTerms => "Search query must contain at least one searchable character"@,
        ContentError::SearchQueryEmpty => "Search query cannot be empty"@,
        ContentError::SearchQueryTooLong => "Search query too long"@,
        ContentError::TutorialIdLength => "Invalid tutorial ID (must be 1-100 characters)"@,
        ContentError::TutorialIdCharacters => "Tutorial ID contains invalid characters (allowed: alphanumeric, -, _, .)"@,
        ContentError::TitleEmpty => "Title cannot be empty"@,
        ContentError::TitleTooLong => "Title too long (max 200 characters)"@,
        ContentError::DescriptionEmpty => "Description cannot be empty"@,
        ContentError::DescriptionTooLong => "Description too long (max 1000 characters)"@,
        ContentError::ContentEmpty => "Content cannot be empty"@,
        ContentError::ContentTooLong => "Content too long (max 100,000 characters)"@,
        ContentError::UnknownIcon => "Invalid icon. Must be one of: Terminal, FolderTree, FileText, Settings, Shield, Network, Database, Server"@,
        ContentError::ColorShape => "Invalid color gradient. Expected Tailwind style 'from-… [via-…] to-…' format."@,
        ContentError::ColorFrom => "Invalid color gradient: 'from-*' segment malformed, too long, or missing."@,
        ContentError::ColorVia => "Invalid color gradient: Middle segment must be 'via-*' in a 3-part gradient."@,
        ContentError::ColorTo => "Invalid color gradient: Last segment must be 'to-*'."@,
        ContentError::TooManyTopics => "Too many topics (max 20)"@,
        ContentError::DuplicateTopics => "Duplicate topics are not allowed"@,
        ContentError::NoTopics => "At least one topic is required"@,
        ContentError::SlugEmpty => "Slug cannot be empty"@,
        ContentError::SlugTooLong => "Slug too long (max 100 characters)"@,
        ContentError::SlugCharacters => "Invalid slug. Only lowercase letters, numbers and single hyphens allowed"@,
        ContentError::ExcerptTooLong => "Excerpt too long (max 500 characters)"@,
        ContentError::CommentEmpty => "Comment content cannot be empty"@,
        ContentError::CommentTooLong => "Comment too long (max 1000 characters)"@,
        ContentError::UnknownSection => "Unknown content section"@,
        ContentError::GuestNameRequired => "Name is required for guest comments"@,
        ContentError::GuestNameLength => "Name must be between 2 and 50 characters"@,
        ContentError::GuestNameCharacters => "Name can only contain letters, numbers, and spaces"@,
        ContentError::GuestNameReserved => "This name is reserved"@,
        ContentError::VersionOverflow => "Tutorial version overflow"@,
        ContentError::StoredTopicsUnreadable => "Failed to read stored tutorial topics"@,
        ContentError::TopicsUnwritable => "Failed to update tutorial"@,
        ContentError::NavLabelTooLong => "Navigation label too long (max 100 characters)"@,
        ContentError::HeroTooLarge => "hero JSON exceeds maximum size of 200000 bytes"@,
        ContentError::LayoutTooLarge => "layout JSON exceeds maximum size of 200000 bytes"@,
        ContentError::SectionTooLarge => "Content too large (max 5000000 bytes)"@,
    }
}

impl ContentError {
    /// The text sent to the client.
    pub fn message(&self) -> (text: &'static str)
        ensures
            text@ == content_error_text(*self),
    {
        match self {
            ContentError::SearchWithoutTerms => "Search query must contain at least one searchable character",
            ContentError::SearchQueryEmpty => "Search query cannot be empty",
            ContentError::SearchQueryTooLong => "Search query too long",
            ContentError::TutorialIdLength => "Invalid tutorial ID (must be 1-100 characters)",
            ContentError::TutorialIdCharacters => "Tutorial ID contains invalid characters (allowed: alphanumeric, -, _, .)",
            ContentError::TitleEmpty => "Title cannot be empty",
            ContentError::TitleTooLong => "Title too long (max 200 characters)",
            ContentError::DescriptionEmpty => "Description cannot be empty",
            ContentError::DescriptionTooLong => "Description too long (max 1000 characters)",
            ContentError::ContentEmpty => "Content cannot be empty",
            ContentError::ContentTooLong => "Content too long (max 100,000 characters)",
            ContentError::UnknownIcon => "Invalid icon. Must be one of: Terminal, FolderTree, FileText, Settings, Shield, Network, Database, Server",
            ContentError::ColorShape => "Invalid color gradient. Expected Tailwind style 'from-… [via-…] to-…' format.",
            ContentError::ColorFrom => "Invalid color gradient: 'from-*' segment malformed, too long, or missing.",
            ContentError::ColorVia => "Invalid color gradient: Middle segment must be 'via-*' in a 3-part gradient.",
            ContentError::ColorTo => "Invalid color gradient: Last segment must be 'to-*'.",
            ContentError::TooManyTopics => "Too many topics (max 20)",
            ContentError::DuplicateTopics => "Duplicate topics are not allowed",
            ContentError::NoTopics => "At least one topic is required",
            ContentError::SlugEmpty => "Slug cannot be empty",
            ContentError::SlugTooLong => "Slug too long (max 100 characters)",
            ContentError::SlugCharacters => "Invalid slug. Only lowercase letters, numbers and single hyphens allowed",
            ContentError::ExcerptTooLong => "Excerpt too long (max 500 characters)",
            ContentError::CommentEmpty => "Comment content cannot be empty",
            ContentError::CommentTooLong => "Comment too long (max 1000 characters)",
            ContentError::UnknownSection => "Unknown content section",
            ContentError::GuestNameRequired => "Name is required for guest comments",
            ContentError::GuestNameLength => "Name must be between 2 and 50 characters",
            ContentError::GuestNameCharacters => "Name can only contain letters, numbers, and spaces",
            ContentError::GuestNameReserved => "This name is reserved",
            ContentError::VersionOverflow => "Tutorial version overflow",
            ContentError::StoredTopicsUnreadable => "Failed to read stored tutorial topics",
            ContentError::TopicsUnwritable => "Failed to update tutorial",
            ContentError::NavLabelTooLong => "Navigation label too long (max 100 characters)",
            ContentError::HeroTooLarge => "hero JSON exceeds maximum size of 200000 bytes",
            ContentError::LayoutTooLarge => "layout JSON exceeds maximum size of 200000 bytes",
            ContentError::SectionTooLarge => "Content too large (max 5000000 bytes)",
        }
    }
}

impl ContentError {
    /// The HTTP status to answer with: a failure to read or write what is stored is the
    /// server's, an unknown section is not found, a section that is too large is a
    /// payload too large, and everything else is a bad request.
    pub fn status(&self) -> (code: u16)
        ensures
            code == (match *self {
                ContentError::VersionOverflow => 500u16,
                ContentError::StoredTopicsUnreadable => 500u16,
                ContentError::TopicsUnwritable => 500u16,
                ContentError::UnknownSection => 404u16,
                ContentError::SectionTooLarge => 413u16,
                _ => 400u16,
            }),
    {
        match self {
            ContentError::VersionOverflow => 500,
            ContentError::StoredTopicsUnreadable => 500,
            ContentError::TopicsUnwritable => 500,
            ContentError::UnknownSection => 404,
            ContentError::SectionTooLarge => 413,
            _ => 400,
        }
    }
}

} // verus!
