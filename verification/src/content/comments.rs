//! Comments: their text, who signs them and how often.

use vstd::prelude::*;

use crate::auth::Claims;
use crate::content::common::{byte_len, utf8_len};
use crate::content::errors::ContentError;
use crate::text::{
    char_is_ascii_alnum, chars_eq_ignore_ascii_case, chars_of, eq_ignore_ascii_case,
    is_ascii_alnum, str_eq, string_of, trim, trim_chars,
};

verus! {

/// How many comments are listed when the client does not say.
pub fn default_comment_limit() -> (limit: i64)
    ensures
        limit == 50,
{
    50
}

/// What stands for a character in text that is safe to put into a page: `&`, `<`, `>`,
/// `"`, `'` and `/` are written as entities, anything else as it is.
pub open spec fn html_entity(c: char) -> Seq<char> {
    if c == '&' {
        "&amp;"@
    } else if c == '<' {
        "&lt;"@
    } else if c == '>' {
        "&gt;"@
    } else if c == '"' {
        "&quot;"@
    } else if c == '\'' {
        "&#x27;"@
    } else if c == '/' {
        "&#x2F;"@
    } else {
        seq![c]
    }
}

/// A text made safe to put into a page.
pub open spec fn html_safe(s: Seq<char>) -> Seq<char>
    decreases s.len(),
{
    if s.len() == 0 {
        Seq::empty()
    } else {
        html_safe(s.drop_last()) + html_entity(s.last())
    }
}

/// Trusted: `html_escape::encode_safe`. It writes `&`, `<`, `>`, `"`, `'` and `/` as
/// entities and leaves everything else as it is.
#[verifier::external_body]
pub(crate) fn encode_safe(text: &str) -> (r: String)
    ensures
        r@ == html_safe(text@),
{
    html_escape::encode_safe(text).into_owned()
}

/// What becomes of the text of a comment: it is trimmed, refused if blank or longer
/// than a thousand bytes, and made safe to put into a page.
pub open spec fn comment_verdict(raw: Seq<char>) -> Result<Seq<char>, ContentError> {
    let trimmed = trim(raw);
    if trimmed.len() == 0 {
        Err(ContentError::CommentEmpty)
    } else if byte_len(trimmed) > 1000 {
        Err(ContentError::CommentTooLong)
    } else {
        Ok(html_safe(trimmed))
    }
}

/// Checks and cleans the text of a comment.
pub fn sanitize_comment_content(raw: &str) -> (r: Result<String, ContentError>)
    ensures
        match r {
            Ok(clean) => comment_verdict(raw@) == Ok::<Seq<char>, ContentError>(clean@),
            Err(e) => comment_verdict(raw@) == Err::<Seq<char>, ContentError>(e),
        },
{
    let chars = chars_of(raw);
    let trimmed = trim_chars(chars.as_slice());
    if trimmed.len() == 0 {
        return Err(ContentError::CommentEmpty);
    }
    let text = string_of(trimmed.as_slice());
    if text.as_str().as_bytes().len() > 1000 {
        return Err(ContentError::CommentTooLong);
    }
    Ok(encode_safe(text.as_str()))
}

/// What is asked of the name a guest signs a comment with, once trimmed: two to fifty
/// characters, ASCII letters, digits and spaces only, and none of the names that stand
/// for the staff.
pub open spec fn guest_name_verdict(name: Seq<char>) -> Result<(), ContentError> {
    let trimmed = trim(name);
    if byte_len(trimmed) < 2 || byte_len(trimmed) > 50 {
        Err(ContentError::GuestNameLength)
    } else if exists|i: int| 0 <= i < trimmed.len() && !(is_ascii_alnum(#[trigger] trimmed[i]) || trimmed[i] == ' ') {
        Err(ContentError::GuestNameCharacters)
    } else if eq_ignore_ascii_case(trimmed, "admin"@) || eq_ignore_ascii_case(trimmed, "administrator"@)
        || eq_ignore_ascii_case(trimmed, "root"@) {
        Err(ContentError::GuestNameReserved)
    } else {
        Ok(())
    }
}

/// Who a comment is signed by and whose comments are counted against it: a signed-in
/// user signs with the user name, an administrator as `Administrator`, and both are
/// counted by user name; a guest signs with the trimmed name given and is counted by
/// address.
pub open spec fn comment_signature(
    user: Option<(Seq<char>, Seq<char>)>,
    guest_name: Option<Seq<char>>,
    address: Seq<char>,
) -> Result<(Seq<char>, Seq<char>), ContentError> {
    match user {
        Some((name, role)) => Ok(
            (
                if role == "admin"@ {
                    "Administrator"@
                } else {
                    name
                },
                name,
            ),
        ),
        None => match guest_name {
            None => Err(ContentError::GuestNameRequired),
            Some(given) => match guest_name_verdict(given) {
                Err(e) => Err(e),
                Ok(_) => Ok((trim(given), address)),
            },
        },
    }
}

/// Checks the name a guest signs a comment with, and gives it back trimmed.
#[verifier::loop_isolation(false)]
pub fn validate_guest_name(name: &str) -> (r: Result<String, ContentError>)
    ensures
        match r {
            Ok(trimmed) => guest_name_verdict(name@) is Ok && trimmed@ == trim(name@),
            Err(e) => guest_name_verdict(name@) == Err::<(), ContentError>(e),
        },
{
    let chars = chars_of(name);
    let trimmed = trim_chars(chars.as_slice());
    let bytes = utf8_len(trimmed.as_slice());
    if bytes < 2 || bytes > 50 {
        return Err(ContentError::GuestNameLength);
    }
    let mut i: usize = 0;
    while i < trimmed.len()
        invariant
            i <= trimmed.len(),
            forall|k: int| 0 <= k < i ==> is_ascii_alnum(#[trigger] trimmed@[k]) || trimmed@[k] == ' ',
        decreases trimmed.len() - i,
    {
        let c = trimmed[i];
        if !(char_is_ascii_alnum(c) || c == ' ') {
            assert(!(is_ascii_alnum(trimmed@[i as int]) || trimmed@[i as int] == ' '));
            return Err(ContentError::GuestNameCharacters);
        }
        i += 1;
    }
    let admin = chars_of("admin");
    let administrator = chars_of("administrator");
    let root = chars_of("root");
    if chars_eq_ignore_ascii_case(trimmed.as_slice(), admin.as_slice()) || chars_eq_ignore_ascii_case(
        trimmed.as_slice(),
        administrator.as_slice(),
    ) || chars_eq_ignore_ascii_case(trimmed.as_slice(), root.as_slice()) {
        return Err(ContentError::GuestNameReserved);
    }
    Ok(string_of(trimmed.as_slice()))
}

/// Decides who a comment is signed by and whose comments are counted against it.
pub fn comment_author(claims: Option<&Claims>, guest_name: Option<&str>, address: &str) -> (r: Result<
    (String, String),
    ContentError,
>)
    ensures
        match r {
            Ok((author, counted)) => comment_signature(
                match claims {
                    Some(c) => Some((c.sub@, c.role@)),
                    None => None,
                },
                crate::text::text_of(guest_name),
                address@,
            ) == Ok::<(Seq<char>, Seq<char>), ContentError>((author@, counted@)),
            Err(e) => comment_signature(
                match claims {
                    Some(c) => Some((c.sub@, c.role@)),
                    None => None,
                },
                crate::text::text_of(guest_name),
                address@,
            ) == Err::<(Seq<char>, Seq<char>), ContentError>(e),
        },
{
    match claims {
        Some(c) => {
            let author = if str_eq(c.role.as_str(), "admin") {
                "Administrator".to_owned()
            } else {
                c.sub.clone()
            };
            Ok((author, c.sub.clone()))
        },
        None => match guest_name {
            None => Err(ContentError::GuestNameRequired),
            Some(given) => match validate_guest_name(given) {
                Err(e) => Err(e),
                Ok(trimmed) => Ok((trimmed, address.to_owned())),
            },
        },
    }
}

/// Seconds that have to pass between two comments counted against the same key.
pub const COMMENT_INTERVAL_SECONDS: i64 = 60;

/// How many seconds a commenter still has to wait at time `now`, given when the last
/// comment counted against the same key was made; none where the wait is over or there
/// was no comment before.
pub fn comment_wait(last_comment: Option<i64>, now: i64) -> (wait: Option<i64>)
    ensures
        wait == match last_comment {
            Some(at) => if now - at < COMMENT_INTERVAL_SECONDS {
                Some(
                    if COMMENT_INTERVAL_SECONDS - (now - at) > i64::MAX {
                        i64::MAX
                    } else {
                        (COMMENT_INTERVAL_SECONDS - (now - at)) as i64
                    },
                )
            } else {
                None
            },
            None => None,
        },
{
    match last_comment {
        Some(at) => {
            let elapsed: i128 = now as i128 - at as i128;
            if elapsed < COMMENT_INTERVAL_SECONDS as i128 {
                let left: i128 = COMMENT_INTERVAL_SECONDS as i128 - elapsed;
                if left > i64::MAX as i128 {
                    Some(i64::MAX)
                } else {
                    Some(left as i64)
                }
            } else {
                None
            }
        },
        None => None,
    }
}

/// Whether a user may delete a comment: administrators may delete any, everyone else
/// only their own.
pub fn may_delete_comment(claims: &Claims, author: &str) -> (allowed: bool)
    ensures
        allowed == (claims.role@ == "admin"@ || author@ == claims.sub@),
{
    str_eq(claims.role.as_str(), "admin") || str_eq(author, claims.sub.as_str())
}

} // verus!
