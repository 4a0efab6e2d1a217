//! Posts: slugs and the fields of a post.

use vstd::prelude::*;

use crate::content::common::{byte_len, check_text, opt_text, opt_trimmed, trimmed_text};
use crate::content::errors::ContentError;
use crate::models::{CreateSitePostRequest, SitePost, SitePostResponse, UpdateSitePostRequest};
use crate::text::{
    char_is_ascii_digit, char_is_ascii_lower, chars_of, is_ascii_digit, is_ascii_lower,
    str_to_lowercase, string_of, trim, trim_chars, unicode_lower,
};

verus! {

/// Whether a new post takes comments when the client does not say.
pub fn default_allow_comments() -> (allow: bool)
    ensures
        allow,
{
    true
}

/// A slug as it is stored: trimmed and in lower case.
pub open spec fn clean_slug(slug: Seq<char>) -> Seq<char> {
    unicode_lower(trim(slug))
}

/// Brings a slug into the form in which it is stored.
pub fn sanitize_slug(slug: &str) -> (clean: String)
    ensures
        clean@ == clean_slug(slug@),
{
    let chars = chars_of(slug);
    let trimmed = string_of(trim_chars(chars.as_slice()).as_slice());
    str_to_lowercase(trimmed.as_str())
}

/// A character of a slug: a lower-case ASCII letter or a digit.
pub open spec fn is_slug_char(c: char) -> bool {
    is_ascii_lower(c) || is_ascii_digit(c)
}

/// The shape of a slug: runs of lower-case letters and digits joined by single hyphens.
pub open spec fn is_slug(s: Seq<char>) -> bool {
    &&& s.len() > 0
    &&& forall|i: int| 0 <= i < s.len() ==> is_slug_char(#[trigger] s[i]) || s[i] == '-'
    &&& s[0] != '-'
    &&& s.last() != '-'
    &&& forall|i: int| 0 <= i < s.len() - 1 ==> !(#[trigger] s[i] == '-' && s[i + 1] == '-')
}

/// What is asked of a slug: at most a hundred bytes, and the shape of a slug.
pub open spec fn slug_verdict(slug: Seq<char>) -> Result<(), ContentError> {
    if byte_len(slug) > 100 {
        Err(ContentError::SlugTooLong)
    } else if !is_slug(slug) {
        Err(ContentError::SlugCharacters)
    } else {
        Ok(())
    }
}

/// Checks a slug.
#[verifier::loop_isolation(false)]
pub fn validate_slug(slug: &str) -> (r: Result<(), ContentError>)
    ensures
        r == slug_verdict(slug@),
{
    if slug.as_bytes().len() > 100 {
        return Err(ContentError::SlugTooLong);
    }
    let chars = chars_of(slug);
    let n: usize = chars.len();
    if n == 0 {
        return Err(ContentError::SlugCharacters);
    }
    if chars[0] == '-' || chars[n - 1] == '-' {
        return Err(ContentError::SlugCharacters);
    }
    let mut i: usize = 0;
    while i < n
        invariant
            i <= n,
            forall|k: int| 0 <= k < i ==> is_slug_char(#[trigger] chars@[k]) || chars@[k] == '-',
            forall|k: int| 0 <= k < i - 1 ==> !(#[trigger] chars@[k] == '-' && chars@[k + 1] == '-'),
        decreases n - i,
    {
        let c = chars[i];
        if !(char_is_ascii_lower(c) || char_is_ascii_digit(c) || c == '-') {
            assert(!(is_slug_char(slug@[i as int]) || slug@[i as int] == '-'));
            return Err(ContentError::SlugCharacters);
        }
        if i > 0 && c == '-' && chars[i - 1] == '-' {
            assert(slug@[i - 1] == '-' && slug@[i - 1 + 1] == '-');
            return Err(ContentError::SlugCharacters);
        }
        i += 1;
    }
    Ok(())
}

/// What is asked of the fields of a post, in the order in which they are checked.
pub open spec fn post_fields_verdict(
    title: Seq<char>,
    slug: Seq<char>,
    excerpt: Option<Seq<char>>,
    content: Seq<char>,
) -> Result<(), ContentError> {
    if trim(title).len() == 0 {
        Err(ContentError::TitleEmpty)
    } else if byte_len(trim(title)) > 200 {
        Err(ContentError::TitleTooLong)
    } else if clean_slug(slug).len() == 0 {
        Err(ContentError::SlugEmpty)
    } else if byte_len(clean_slug(slug)) > 100 {
        Err(ContentError::SlugTooLong)
    } else if excerpt is Some && byte_len(excerpt.unwrap()) > 500 {
        Err(ContentError::ExcerptTooLong)
    } else if byte_len(content) > 100000 {
        Err(ContentError::ContentTooLong)
    } else {
        Ok(())
    }
}

/// Checks the fields of a post.
pub fn validate_post_fields(title: &str, slug: &str, excerpt: Option<&str>, content: &str) -> (r: Result<
    (),
    ContentError,
>)
    ensures
        r == post_fields_verdict(title@, slug@, crate::text::text_of(excerpt), content@),
{
    match check_text(title, 200, ContentError::TitleEmpty, ContentError::TitleTooLong) {
        Err(e) => {
            return Err(e);
        },
        Ok(()) => {},
    }
    let clean = sanitize_slug(slug);
    if clean.as_str().is_empty() {
        return Err(ContentError::SlugEmpty);
    }
    if clean.as_str().as_bytes().len() > 100 {
        return Err(ContentError::SlugTooLong);
    }
    match excerpt {
        Some(text) => {
            if text.as_bytes().len() > 500 {
                return Err(ContentError::ExcerptTooLong);
            }
        },
        None => {},
    }
    if content.as_bytes().len() > 100000 {
        return Err(ContentError::ContentTooLong);
    }
    Ok(())
}

/// A post as sent to clients: every field as it is stored.
pub fn map_post(record: SitePost) -> (r: SitePostResponse)
    ensures
        r.id == record.id,
        r.page_id == record.page_id,
        r.title == record.title,
        r.slug == record.slug,
        r.excerpt == record.excerpt,
        r.content_markdown == record.content_markdown,
        r.is_published == record.is_published,
        r.allow_comments == record.allow_comments,
        r.published_at == record.published_at,
        r.order_index == record.order_index,
        r.created_at == record.created_at,
        r.updated_at == record.updated_at,
{
    SitePostResponse {
        id: record.id,
        page_id: record.page_id,
        title: record.title,
        slug: record.slug,
        excerpt: record.excerpt,
        content_markdown: record.content_markdown,
        is_published: record.is_published,
        allow_comments: record.allow_comments,
        published_at: record.published_at,
        order_index: record.order_index,
        created_at: record.created_at,
        updated_at: record.updated_at,
    }
}

/// Checks a new post and brings its texts into the form in which they are stored: the
/// title and the excerpt trimmed, the slug trimmed and in lower case. Every other field
/// stays as it is.
pub fn prepare_post(payload: CreateSitePostRequest) -> (r: Result<CreateSitePostRequest, ContentError>)
    ensures
        match r {
            Ok(post) => {
                &&& post_fields_verdict(
                    trim(payload.title@),
                    clean_slug(payload.slug@),
                    opt_trimmed(opt_text(payload.excerpt)),
                    payload.content_markdown@,
                ) is Ok
                &&& post.title@ == trim(payload.title@)
                &&& post.slug@ == clean_slug(payload.slug@)
                &&& opt_text(post.excerpt) == opt_trimmed(opt_text(payload.excerpt))
                &&& post.content_markdown == payload.content_markdown
                &&& post.is_published == payload.is_published
                &&& post.allow_comments == payload.allow_comments
                &&& post.published_at == payload.published_at
                &&& post.order_index == payload.order_index
            },
            Err(e) => post_fields_verdict(
                trim(payload.title@),
                clean_slug(payload.slug@),
                opt_trimmed(opt_text(payload.excerpt)),
                payload.content_markdown@,
            ) == Err::<(), ContentError>(e),
        },
{
    let title = trimmed_text(payload.title.as_str());
    let slug = sanitize_slug(payload.slug.as_str());
    let excerpt: Option<String> = match &payload.excerpt {
        Some(text) => Some(trimmed_text(text.as_str())),
        None => None,
    };
    let checked = match &excerpt {
        Some(text) => validate_post_fields(
            title.as_str(),
            slug.as_str(),
            Some(text.as_str()),
            payload.content_markdown.as_str(),
        ),
        None => validate_post_fields(
            title.as_str(),
            slug.as_str(),
            None,
            payload.content_markdown.as_str(),
        ),
    };
    match checked {
        Err(e) => Err(e),
        Ok(()) => Ok(
            CreateSitePostRequest {
                title,
                slug,
                excerpt,
                content_markdown: payload.content_markdown,
                is_published: payload.is_published,
                allow_comments: payload.allow_comments,
                published_at: payload.published_at,
                order_index: payload.order_index,
            },
        ),
    }
}

/// What is asked of a change to a post, in the order in which it is checked: the slug,
/// the excerpt, the content and the title, each only where the change names it.
pub open spec fn post_update_verdict(
    title: Option<Seq<char>>,
    slug: Option<Seq<char>>,
    excerpt: Option<Seq<char>>,
    content: Option<Seq<char>>,
) -> Result<(), ContentError> {
    if slug is Some && clean_slug(slug.unwrap()).len() == 0 {
        Err(ContentError::SlugEmpty)
    } else if slug is Some && byte_len(clean_slug(slug.unwrap())) > 100 {
        Err(ContentError::SlugTooLong)
    } else if excerpt is Some && byte_len(excerpt.unwrap()) > 500 {
        Err(ContentError::ExcerptTooLong)
    } else if content is Some && byte_len(content.unwrap()) > 100000 {
        Err(ContentError::ContentTooLong)
    } else if title is Some && trim(title.unwrap()).len() == 0 {
        Err(ContentError::TitleEmpty)
    } else if title is Some && byte_len(trim(title.unwrap())) > 200 {
        Err(ContentError::TitleTooLong)
    } else {
        Ok(())
    }
}

/// Checks a change to a post and brings the title and the slug it names into the form
/// in which they are stored. Every other field stays as it is.
pub fn prepare_post_update(payload: UpdateSitePostRequest) -> (r: Result<
    UpdateSitePostRequest,
    ContentError,
>)
    ensures
        match r {
            Ok(change) => {
                &&& post_update_verdict(
                    opt_text(payload.title),
                    opt_text(payload.slug),
                    opt_text(payload.excerpt),
                    opt_text(payload.content_markdown),
                ) is Ok
                &&& opt_text(change.title) == opt_trimmed(opt_text(payload.title))
                &&& opt_text(change.slug) == (match payload.slug {
                    Some(slug) => Some(clean_slug(slug@)),
                    None => None,
                })
                &&& change.excerpt == payload.excerpt
                &&& change.content_markdown == payload.content_markdown
                &&& change.is_published == payload.is_published
                &&& change.allow_comments == payload.allow_comments
                &&& change.published_at == payload.published_at
                &&& change.order_index == payload.order_index
            },
            Err(e) => post_update_verdict(
                opt_text(payload.title),
                opt_text(payload.slug),
                opt_text(payload.excerpt),
                opt_text(payload.content_markdown),
            ) == Err::<(), ContentError>(e),
        },
{
    let slug: Option<String> = match &payload.slug {
        Some(given) => {
            let clean = sanitize_slug(given.as_str());
            if clean.as_str().is_empty() {
                return Err(ContentError::SlugEmpty);
            }
            if clean.as_str().as_bytes().len() > 100 {
                return Err(ContentError::SlugTooLong);
            }
            Some(clean)
        },
        None => None,
    };
    match &payload.excerpt {
        Some(text) => {
            if text.as_str().as_bytes().len() > 500 {
                return Err(ContentError::ExcerptTooLong);
            }
        },
        None => {},
    }
    match &payload.content_markdown {
        Some(text) => {
            if text.as_str().as_bytes().len() > 100000 {
                return Err(ContentError::ContentTooLong);
            }
        },
        None => {},
    }
    let title: Option<String> = match &payload.title {
        Some(given) => {
            let trimmed = trimmed_text(given.as_str());
            if trimmed.as_str().is_empty() {
                return Err(ContentError::TitleEmpty);
            }
            if trimmed.as_str().as_bytes().len() > 200 {
                return Err(ContentError::TitleTooLong);
            }
            Some(trimmed)
        },
        None => None,
    };
    Ok(
        UpdateSitePostRequest {
            title,
            slug,
            excerpt: payload.excerpt,
            content_markdown: payload.content_markdown,
            is_published: payload.is_published,
            allow_comments: payload.allow_comments,
            published_at: payload.published_at,
            order_index: payload.order_index,
        },
    )
}

} // verus!
