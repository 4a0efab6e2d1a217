//! Establishing and ending sessions: the steps of a login between its reads of storage
//! and its wait, the answer to "who am I", and logout.

use axum::http::HeaderMap;
use vstd::prelude::*;
use vstd::utf8::{encode_utf8, is_ascii_chars_encode_utf8};

use crate::attempts::{
    LoginAttempt, LoginAttemptTracker, after_failure, lockout_remaining, remaining_lockout,
};
use crate::auth::{
    AUTH_COOKIE_NAME, AUTH_COOKIE_TTL_SECONDS, Claims, append_auth_cookie, auth_cookie_text,
    auth_removal_text, bearer_token, build_auth_cookie, build_cookie_removal, create_jwt_at,
    jwt_text, lemma_auth_cookie_is_value, lemma_auth_removal_is_value, lemma_token_text_visible,
    parse_bearer_token, with_cookie, with_cookie_if_valid,
};
use crate::csrf::{
    append_csrf_cookie, append_csrf_removal, can_issue_for, csrf_cookie_text, csrf_removal_text,
    fresh_token_for, issue_csrf_token, issued_for, lemma_csrf_cookie_is_value,
};
use crate::errors::{ApiError, AuthError, InternalError};
use crate::headers::{
    cookie_value, empty_headers, field_values, first_text, header_fields, header_text,
    is_visible_text, no_fields, request_cookie,
};
use crate::login::{
    hash_login_identifier, is_username_char, login_key, password_verdict, username_verdict,
    validate_password, validate_username,
};
use crate::models::{LoginRequest, LoginResponse, User, UserResponse};
use crate::revocation::{RevocationStore, with_revoked};
use crate::text::{chars_of, string_of, trim, trim_chars};

verus! {

/// Why a login request is refused before any storage is touched, if it is: a bad user
/// name first, then a bad password.
pub open spec fn request_verdict(username: Seq<char>, password: Seq<char>) -> Result<(), ApiError> {
    match username_verdict(trim(username)) {
        Err(e) => Err(ApiError::Validation(e)),
        Ok(_) => match password_verdict(password) {
            Err(e) => Err(ApiError::Validation(e)),
            Ok(_) => Ok(()),
        },
    }
}

/// The first step of a login: checks the request and derives the key under which the
/// user's failures are counted. What comes back is the user name without surrounding
/// whitespace, and the key.
pub fn begin_login(payload: &LoginRequest, salt: &str) -> (r: Result<(String, String), ApiError>)
    ensures
        match r {
            Ok((username, attempt_key)) => {
                &&& request_verdict(payload.username@, payload.password@) is Ok
                &&& username@ == trim(payload.username@)
                &&& attempt_key@ == login_key(salt@, trim(payload.username@))
            },
            Err(e) => request_verdict(payload.username@, payload.password@) == Err::<(), ApiError>(e),
        },
{
    let chars = chars_of(payload.username.as_str());
    let trimmed = trim_chars(chars.as_slice());
    let username = string_of(trimmed.as_slice());
    match validate_username(username.as_str()) {
        Err(e) => {
            return Err(ApiError::Validation(e));
        },
        Ok(()) => {},
    }
    match validate_password(payload.password.as_str()) {
        Err(e) => {
            return Err(ApiError::Validation(e));
        },
        Ok(()) => {},
    }
    let attempt_key = hash_login_identifier(salt, username.as_str());
    Ok((username, attempt_key))
}

/// The second step of a login: a key that is locked is refused at once, with the
/// seconds left to wait, and nothing else is done for it.
pub fn check_lockout(record: Option<&LoginAttempt>, now: i64) -> (r: Result<(), ApiError>)
    ensures
        r == match lockout_remaining(
            match record {
                Some(r) => Some(*r),
                None => None,
            },
            now,
        ) {
            Some(remaining) => Err::<(), ApiError>(ApiError::RateLimited(remaining)),
            None => Ok::<(), ApiError>(()),
        },
{
    match remaining_lockout(record, now) {
        Some(remaining) => Err(ApiError::RateLimited(remaining)),
        None => Ok(()),
    }
}

/// The last step of a failed login: the failure is counted against the key, and the
/// answer does not say whether the user was unknown or the password wrong.
pub fn reject_login(tracker: &mut LoginAttemptTracker, attempt_key: &str, now: i64) -> (e: ApiError)
    requires
        old(tracker).wf(),
    ensures
        final(tracker).wf(),
        final(tracker)@ == old(tracker)@.insert(
            attempt_key@,
            after_failure(old(tracker).standing(attempt_key@), now),
        ),
        e == ApiError::Unauthenticated(AuthError::InvalidCredentials),
{
    tracker.record_failure(attempt_key, now);
    ApiError::Unauthenticated(AuthError::InvalidCredentials)
}

/// The fields of an answer that carries exactly two cookies and nothing else.
pub open spec fn two_cookies(first: Seq<char>, second: Seq<char>) -> Map<Seq<char>, Seq<Seq<u8>>> {
    with_cookie(with_cookie(no_fields(), first), second)
}

/// The fields of the answer that establishes a session: the cookie with the identity
/// token, then the cookie with the anti-forgery token, each where its text can be a
/// header value.
pub open spec fn session_fields(token: Seq<char>, csrf_token: Seq<char>, secure: bool) -> Map<
    Seq<char>,
    Seq<Seq<u8>>,
> {
    with_cookie_if_valid(
        with_cookie_if_valid(no_fields(), auth_cookie_text(token, secure)),
        csrf_cookie_text(csrf_token, secure),
    )
}

/// The answer that establishes a session, made from its two tokens: both go out as
/// cookies, and the body names the token, the user and the role. Tokens of visible
/// characters always go out, the identity token first.
pub fn session_answer(token: String, csrf_token: &str, user: &User, secure: bool) -> (r: (
    HeaderMap,
    LoginResponse,
))
    ensures
        header_fields(r.0) == session_fields(token@, csrf_token@, secure),
        is_visible_text(token@) && is_visible_text(csrf_token@) ==> header_fields(r.0) == two_cookies(
            auth_cookie_text(token@, secure),
            csrf_cookie_text(csrf_token@, secure),
        ),
        r.1.token@ == token@,
        r.1.user.username@ == user.username@,
        r.1.user.role@ == user.role@,
{
    proof {
        if is_visible_text(token@) {
            lemma_auth_cookie_is_value(token@, secure);
        }
        if is_visible_text(csrf_token@) {
            lemma_csrf_cookie_is_value(csrf_token@, secure);
        }
    }
    let mut headers = empty_headers();
    append_auth_cookie(&mut headers, build_auth_cookie(token.as_str(), secure));
    append_csrf_cookie(&mut headers, csrf_token, secure);
    (headers, LoginResponse { token, user: user.to_response() })
}

/// What holds of the answer to a good login: the body names the identity token, the
/// user and the role, and the fields are exactly two cookies, the first with the
/// identity token and the second with an anti-forgery token freshly issued for the
/// user.
pub open spec fn is_session_answer(
    fields: Map<Seq<char>, Seq<Seq<u8>>>,
    body: LoginResponse,
    user: User,
    csrf_secret: Seq<u8>,
    secure: bool,
) -> bool {
    &&& body.user.username@ == user.username@
    &&& body.user.role@ == user.role@
    &&& exists|csrf_token: Seq<char>|
        {
            &&& #[trigger] fresh_token_for(csrf_token, user.username@, csrf_secret)
            &&& issued_for(csrf_token, user.username@, csrf_secret)
            &&& fields == two_cookies(
                auth_cookie_text(body.token@, secure),
                csrf_cookie_text(csrf_token, secure),
            )
        }
}

/// The last step of a good login at time `now`: the key's failures are forgotten, an
/// identity token and an anti-forgery token are issued, and both go out as cookies
/// beside the answer, which names the user and the role but never the password hash.
/// The login succeeds wherever the user name is one an anti-forgery token can be issued
/// for, as every name is that passed the check of user names; else it fails on the
/// server's side, and the failures stay forgotten.
pub fn accept_login(
    tracker: &mut LoginAttemptTracker,
    attempt_key: &str,
    user: &User,
    jwt_secret: &str,
    csrf_secret: &[u8],
    secure: bool,
    now: i64,
) -> (r: Result<(HeaderMap, LoginResponse), ApiError>)
    requires
        old(tracker).wf(),
        0 <= now <= i64::MAX - AUTH_COOKIE_TTL_SECONDS,
    ensures
        final(tracker).wf(),
        final(tracker)@ == old(tracker)@.remove(attempt_key@),
        r is Ok <==> can_issue_for(user.username@),
        match r {
            Ok((headers, body)) => {
                &&& jwt_text(
                    user.username@,
                    user.role@,
                    (now + AUTH_COOKIE_TTL_SECONDS) as u64,
                    encode_utf8(jwt_secret@),
                ) == Some(body.token@)
                &&& is_session_answer(header_fields(headers), body, *user, csrf_secret@, secure)
            },
            Err(e) => e == ApiError::Internal(InternalError::TokenCreation),
        },
{
    tracker.clear(attempt_key);
    let token = match create_jwt_at(user.username.as_str(), user.role.as_str(), jwt_secret, now) {
        Ok(token) => token,
        Err(e) => {
            return Err(ApiError::Internal(e));
        },
    };
    let csrf_token = match issue_csrf_token(user.username.as_str(), csrf_secret) {
        Ok(csrf_token) => csrf_token,
        Err(_) => {
            return Err(ApiError::Internal(InternalError::TokenCreation));
        },
    };
    proof {
        lemma_token_text_visible(token@);
    }
    let answer = session_answer(token, csrf_token.as_str(), user, secure);
    assert(fresh_token_for(csrf_token@, user.username@, csrf_secret@));
    assert(is_session_answer(header_fields(answer.0), answer.1, *user, csrf_secret@, secure));
    Ok(answer)
}

/// A user name that passed the check of user names is one a token can be issued for:
/// a good login under such a name always establishes a session.
pub proof fn lemma_checked_name_can_be_issued(username: Seq<char>)
    requires
        username_verdict(username) is Ok,
    ensures
        can_issue_for(username),
{
    assert forall|i: int| 0 <= i < username.len() implies '\0' <= #[trigger] username[i] <= '\u{7f}' by {
        let c = username[i];
        assert(is_username_char(c));
        let code = c as u32;
        vstd::utf8::char_u32_cast(c, code);
        assert(code <= 0x7a);
    }
    is_ascii_chars_encode_utf8(username);
}

/// The end of a login once the password has been compared and the wait is over: a good
/// login of a known user establishes a session, anything else counts as a failure.
pub fn conclude_login(
    valid: bool,
    user: Option<&User>,
    tracker: &mut LoginAttemptTracker,
    attempt_key: &str,
    jwt_secret: &str,
    csrf_secret: &[u8],
    secure: bool,
    now: i64,
) -> (r: Result<(HeaderMap, LoginResponse), ApiError>)
    requires
        old(tracker).wf(),
        0 <= now <= i64::MAX - AUTH_COOKIE_TTL_SECONDS,
    ensures
        final(tracker).wf(),
        !valid || user is None ==> {
            &&& r matches Err(e) && e == ApiError::Unauthenticated(AuthError::InvalidCredentials)
            &&& final(tracker)@ == old(tracker)@.insert(
                attempt_key@,
                after_failure(old(tracker).standing(attempt_key@), now),
            )
        },
        valid && user is Some ==> {
            &&& final(tracker)@ == old(tracker)@.remove(attempt_key@)
            &&& (r is Ok <==> can_issue_for(user.unwrap().username@))
            &&& match r {
                Ok((headers, body)) => {
                    &&& jwt_text(
                        user.unwrap().username@,
                        user.unwrap().role@,
                        (now + AUTH_COOKIE_TTL_SECONDS) as u64,
                        encode_utf8(jwt_secret@),
                    ) == Some(body.token@)
                    &&& is_session_answer(
                        header_fields(headers),
                        body,
                        *user.unwrap(),
                        csrf_secret@,
                        secure,
                    )
                },
                Err(e) => e == ApiError::Internal(InternalError::TokenCreation),
            }
        },
{
    match user {
        Some(known) => {
            if valid {
                accept_login(tracker, attempt_key, known, jwt_secret, csrf_secret, secure, now)
            } else {
                Err(reject_login(tracker, attempt_key, now))
            }
        },
        None => Err(reject_login(tracker, attempt_key, now)),
    }
}

/// The answer to "who am I": the identity from the token, and a fresh anti-forgery
/// cookie, so that a live session always has a valid one. The cookie is left out only
/// for an identity whose name no token can be issued for.
pub fn me(claims: Claims, csrf_secret: &[u8], secure: bool) -> (r: (HeaderMap, UserResponse))
    ensures
        r.1.username@ == claims.sub@,
        r.1.role@ == claims.role@,
        !can_issue_for(claims.sub@) ==> header_fields(r.0) == no_fields(),
        can_issue_for(claims.sub@) ==> exists|csrf_token: Seq<char>|
            {
                &&& #[trigger] fresh_token_for(csrf_token, claims.sub@, csrf_secret@)
                &&& issued_for(csrf_token, claims.sub@, csrf_secret@)
                &&& header_fields(r.0) == with_cookie(no_fields(), csrf_cookie_text(csrf_token, secure))
            },
{
    let mut headers = empty_headers();
    match issue_csrf_token(claims.sub.as_str(), csrf_secret) {
        Ok(csrf_token) => {
            proof {
                lemma_csrf_cookie_is_value(csrf_token@, secure);
            }
            append_csrf_cookie(&mut headers, csrf_token.as_str(), secure);
            assert(fresh_token_for(csrf_token@, claims.sub@, csrf_secret@));
        },
        Err(_) => {},
    }
    (headers, UserResponse { username: claims.sub, role: claims.role })
}

/// The expiry of claims as a signed count of seconds, capped at the largest that can
/// be held.
pub open spec fn expiry_of(exp: u64) -> i64 {
    if exp > i64::MAX {
        i64::MAX
    } else {
        exp as i64
    }
}

/// The expiry of claims as a signed count of seconds, capped at the largest that can
/// be held.
pub fn expiry_seconds(exp: u64) -> (r: i64)
    ensures
        r == expiry_of(exp),
{
    if exp > i64::MAX as u64 {
        i64::MAX
    } else {
        exp as i64
    }
}

/// The bearer token of a request, if it carries one.
pub open spec fn bearer_in(fields: Map<Seq<char>, Seq<Seq<u8>>>) -> Option<Seq<char>> {
    match first_text(field_values(fields, "authorization"@)) {
        Some(value) => bearer_token(value),
        None => None,
    }
}

/// The identity tokens a request carries: the bearer token of its `Authorization`
/// header and the token in its session cookie, each where there is one, and only once
/// where the two are the same.
pub open spec fn carried_tokens(fields: Map<Seq<char>, Seq<Seq<u8>>>) -> Seq<Seq<char>> {
    let bearer = bearer_in(fields);
    let cookie = cookie_value(field_values(fields, "cookie"@), AUTH_COOKIE_NAME@);
    match bearer {
        Some(first) => match cookie {
            Some(second) => if second == first {
                seq![first]
            } else {
                seq![first, second]
            },
            None => seq![first],
        },
        None => match cookie {
            Some(second) => seq![second],
            None => Seq::empty(),
        },
    }
}

/// The revoked tokens with all the given ones revoked until the same expiry.
pub open spec fn with_all_revoked(revoked: Map<Seq<char>, i64>, tokens: Seq<Seq<char>>, expires_at: i64) -> Map<
    Seq<char>,
    i64,
>
    decreases tokens.len(),
{
    if tokens.len() == 0 {
        revoked
    } else {
        with_revoked(with_all_revoked(revoked, tokens.drop_last(), expires_at), tokens.last(), expires_at)
    }
}

/// The revoked tokens after a logout: every identity token the request carries is
/// revoked until the session's expiry.
pub open spec fn revoked_at_logout(
    revoked: Map<Seq<char>, i64>,
    fields: Map<Seq<char>, Seq<Seq<u8>>>,
    exp: u64,
) -> Map<Seq<char>, i64> {
    with_all_revoked(revoked, carried_tokens(fields), expiry_of(exp))
}

/// Finds the identity tokens that a logout has to revoke.
pub fn tokens_to_revoke(headers: &HeaderMap) -> (tokens: Vec<String>)
    ensures
        tokens@.map_values(|t: String| t@) == carried_tokens(header_fields(*headers)),
{
    proof {
        reveal_strlit("authorization");
    }
    let bearer = match header_text(headers, "authorization") {
        Some(value) => parse_bearer_token(value.as_str()),
        None => None,
    };
    let cookie = request_cookie(headers, AUTH_COOKIE_NAME);
    let mut tokens: Vec<String> = Vec::new();
    match bearer {
        Some(first) => {
            match cookie {
                Some(second) => {
                    if crate::text::str_eq(second.as_str(), first.as_str()) {
                        tokens.push(first);
                        assert(tokens@.map_values(|t: String| t@) =~= seq![first@]);
                    } else {
                        tokens.push(first);
                        tokens.push(second);
                        assert(tokens@.map_values(|t: String| t@) =~= seq![first@, second@]);
                    }
                },
                None => {
                    tokens.push(first);
                    assert(tokens@.map_values(|t: String| t@) =~= seq![first@]);
                },
            }
        },
        None => {
            match cookie {
                Some(second) => {
                    tokens.push(second);
                    assert(tokens@.map_values(|t: String| t@) =~= seq![second@]);
                },
                None => {
                    assert(tokens@.map_values(|t: String| t@) =~= Seq::<Seq<char>>::empty());
                },
            }
        },
    }
    tokens
}

/// Ends a session: revokes the token or tokens the request carries and answers 204 with
/// the cookies that remove the session and the anti-forgery token from the client. A
/// logout does not fail.
pub fn logout(headers: &HeaderMap, claims: &Claims, revoked: &mut RevocationStore, secure: bool) -> (r: (
    u16,
    HeaderMap,
))
    requires
        old(revoked).wf(),
    ensures
        final(revoked).wf(),
        final(revoked)@ == revoked_at_logout(old(revoked)@, header_fields(*headers), claims.exp),
        r.0 == 204,
        header_fields(r.1) == two_cookies(auth_removal_text(secure), csrf_removal_text(secure)),
{
    let expires_at: i64 = expiry_seconds(claims.exp);
    let tokens = tokens_to_revoke(headers);
    let ghost carried = carried_tokens(header_fields(*headers));
    let mut i: usize = 0;
    while i < tokens.len()
        invariant
            i <= tokens.len(),
            revoked.wf(),
            carried == tokens@.map_values(|t: String| t@),
            revoked@ == with_all_revoked(old(revoked)@, carried.take(i as int), expires_at),
        decreases tokens.len() - i,
    {
        proof {
            assert(carried.take(i + 1).drop_last() =~= carried.take(i as int));
            assert(carried.take(i + 1).last() == tokens@[i as int]@);
        }
        revoked.blacklist(tokens[i].as_str(), expires_at);
        i += 1;
    }
    assert(carried.take(tokens.len() as int) =~= carried);
    let mut answer = empty_headers();
    proof {
        lemma_auth_removal_is_value(secure);
    }
    append_auth_cookie(&mut answer, build_cookie_removal(secure));
    append_csrf_removal(&mut answer, secure);
    (204, answer)
}

/// After a logout every identity token the request carried is revoked, and whatever
/// was revoked before stays revoked.
pub proof fn lemma_logout_revokes(revoked: Map<Seq<char>, i64>, tokens: Seq<Seq<char>>, expires_at: i64)
    ensures
        forall|i: int|
            0 <= i < tokens.len() ==> with_all_revoked(revoked, tokens, expires_at).contains_key(
                #[trigger] tokens[i],
            ),
        forall|token: Seq<char>|
            revoked.contains_key(token) ==> #[trigger] with_all_revoked(
                revoked,
                tokens,
                expires_at,
            ).contains_key(token),
    decreases tokens.len(),
{
    if tokens.len() > 0 {
        lemma_logout_revokes(revoked, tokens.drop_last(), expires_at);
        let before = with_all_revoked(revoked, tokens.drop_last(), expires_at);
        assert forall|i: int| 0 <= i < tokens.len() implies with_all_revoked(
            revoked,
            tokens,
            expires_at,
        ).contains_key(#[trigger] tokens[i]) by {
            if i < tokens.len() - 1 {
                assert(tokens.drop_last()[i] == tokens[i]);
                assert(before.contains_key(tokens[i]));
            }
        }
    }
}

} // verus!
