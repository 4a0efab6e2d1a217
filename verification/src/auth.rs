//! Identity tokens: who a request speaks for, until when, and how that is carried.

use axum::http::HeaderMap;
use axum_extra::extract::cookie::Cookie;
use jsonwebtoken::{DecodingKey, EncodingKey, Header, Validation, decode, encode};
use serde_json::Value;
use time::{Duration, OffsetDateTime};
use vstd::prelude::*;
use vstd::utf8::encode_utf8;

use crate::crypto::is_base64url_char;
use crate::clock::{MAX_CLOCK_SECONDS, current_unix_time};
use crate::errors::{AuthError, InternalError};
use crate::headers::{
    MAX_FIELD_NAMES, append_header, cookie_value, field_values, first_text, header_fields,
    header_name_count, header_text, is_value_text, is_visible_char, is_visible_text,
    lemma_visible_concat, lemma_visible_is_value, request_cookie,
};
use crate::text::{
    chars_eq_ignore_ascii_case, chars_of, copy_range, decimal_text, eq_ignore_ascii_case,
    find_char, index_of, string_of, text_of, trim, trim_chars,
};

verus! {

/// Name of the cookie that carries the identity token.
pub const AUTH_COOKIE_NAME: &'static str = "ltcms_session";

/// Lifetime of an identity token and of its cookie, in seconds: 24 hours.
pub const AUTH_COOKIE_TTL_SECONDS: i64 = 86400;

/// Clock skew, in seconds, by which a token may be past its expiry and still be accepted.
pub const EXPIRY_LEEWAY_SECONDS: u64 = 60;

/// The identity a token vouches for.
#[derive(Debug, Clone)]
pub struct Claims {
    /// The user's name.
    pub sub: String,
    /// The user's role, such as `admin`.
    pub role: String,
    /// When the token stops being valid, in seconds since the Unix epoch.
    pub exp: u64,
}

/// Identity for endpoints that serve both signed-in and anonymous callers.
pub struct OptionalClaims(pub Option<Claims>);

impl Claims {
    /// Name, role and expiry as plain values.
    pub open spec fn view(&self) -> (Seq<char>, Seq<char>, u64) {
        (self.sub@, self.role@, self.exp)
    }

    /// Claims for a user, valid for 24 hours from `now`.
    pub fn issued_at(username: String, role: String, now: i64) -> (claims: Claims)
        requires
            0 <= now <= i64::MAX - AUTH_COOKIE_TTL_SECONDS,
        ensures
            claims@ == (username@, role@, (now + AUTH_COOKIE_TTL_SECONDS) as u64),
    {
        Claims { sub: username, role, exp: (now + AUTH_COOKIE_TTL_SECONDS) as u64 }
    }

    /// Claims for a user, valid for 24 hours from the moment of the call.
    pub fn new(username: String, role: String) -> (claims: Claims)
        ensures
            claims.sub@ == username@,
            claims.role@ == role@,
            AUTH_COOKIE_TTL_SECONDS <= claims.exp <= MAX_CLOCK_SECONDS + AUTH_COOKIE_TTL_SECONDS,
    {
        let now = current_unix_time();
        Claims::issued_at(username, role, now)
    }
}

/// The signed token text for a name, a role and an expiry under a secret; `None` where
/// signing fails.
pub uninterp spec fn jwt_text(sub: Seq<char>, role: Seq<char>, exp: u64, secret: Seq<u8>) -> Option<
    Seq<char>,
>;

/// The name, role and expiry that a token carries, if it is well-formed, signed with
/// HS256 under the secret, and holds those three claims. Whether it has expired plays
/// no part.
pub uninterp spec fn jwt_claims(token: Seq<char>, secret: Seq<u8>) -> Option<(Seq<char>, Seq<char>, u64)>;

/// A character of a signed token: one of the URL-safe Base64 alphabet, or the `.`
/// between its three parts.
pub open spec fn is_token_char(c: char) -> bool {
    is_base64url_char(c) || c == '.'
}

/// A text made of token characters only.
pub open spec fn is_token_text(s: Seq<char>) -> bool {
    forall|i: int| 0 <= i < s.len() ==> is_token_char(#[trigger] s[i])
}

/// Trusted: `jsonwebtoken::encode` with the default header (HS256) and the three claims
/// `sub`, `role` and `exp`. With a secret for HMAC and claims of two texts and a number
/// it has nothing to fail on: header and key are of one family, the claims are written
/// as JSON into memory, and signing with HMAC gives no error. The text depends on the
/// claims and the secret alone, is made of three URL-safe Base64 parts joined by `.`,
/// and reading it back under the same secret gives the same three claims.
#[verifier::external_body]
pub(crate) fn jwt_encode(sub: &str, role: &str, exp: u64, secret: &[u8]) -> (r: Option<String>)
    ensures
        r is Some,
        match r {
            Some(token) => jwt_text(sub@, role@, exp, secret@) == Some(token@) && jwt_claims(
                token@,
                secret@,
            ) == Some((sub@, role@, exp)),
            None => jwt_text(sub@, role@, exp, secret@) is None,
        },
        r matches Some(token) ==> is_token_text(token@),
{
    let mut claims = serde_json::Map::new();
    claims.insert("sub".to_owned(), Value::from(sub));
    claims.insert("role".to_owned(), Value::from(role));
    claims.insert("exp".to_owned(), Value::from(exp));
    encode(&Header::default(), &claims, &EncodingKey::from_secret(secret)).ok()
}

/// Trusted: `jsonwebtoken::decode` with HS256, signature checking on and expiry checking
/// off, then the claims `sub`, `role` and `exp` read as two texts and an unsigned
/// number. The result depends on the token and the secret alone.
#[verifier::external_body]
pub(crate) fn jwt_decode(token: &str, secret: &[u8]) -> (r: Option<(String, String, u64)>)
    ensures
        match r {
            Some((sub, role, exp)) => jwt_claims(token@, secret@) == Some((sub@, role@, exp)),
            None => jwt_claims(token@, secret@) is None,
        },
{
    let mut validation = Validation::default();
    validation.validate_exp = false;
    let data = decode::<Value>(token, &DecodingKey::from_secret(secret), &validation).ok()?;
    let sub = data.claims.get("sub")?.as_str()?.to_owned();
    let role = data.claims.get("role")?.as_str()?.to_owned();
    let exp = data.claims.get("exp")?.as_u64()?;
    Some((sub, role, exp))
}

/// What becomes of a token at time `now`, given what it was found to carry: nothing
/// readable is an invalid token, an expiry more than the leeway in the past is an
/// expired one, and anything else is accepted as it stands.
pub open spec fn token_verdict(decoded: Option<(Seq<char>, Seq<char>, u64)>, now: int) -> Result<
    (Seq<char>, Seq<char>, u64),
    AuthError,
> {
    match decoded {
        None => Err(AuthError::InvalidToken),
        Some((sub, role, exp)) => if now > exp + EXPIRY_LEEWAY_SECONDS {
            Err(AuthError::ExpiredToken)
        } else {
            Ok((sub, role, exp))
        },
    }
}

/// The view of a verification result.
pub open spec fn claims_result_view(r: Result<Claims, AuthError>) -> Result<
    (Seq<char>, Seq<char>, u64),
    AuthError,
> {
    match r {
        Ok(claims) => Ok(claims@),
        Err(e) => Err(e),
    }
}

/// Decides on a token from what it was found to carry and the current time.
pub fn judge_claims(decoded: Option<(String, String, u64)>, now: i64) -> (r: Result<Claims, AuthError>)
    ensures
        claims_result_view(r) == token_verdict(
            match decoded {
                Some((sub, role, exp)) => Some((sub@, role@, exp)),
                None => None,
            },
            now as int,
        ),
{
    match decoded {
        None => Err(AuthError::InvalidToken),
        Some((sub, role, exp)) => {
            if now > 0 && (now as u64) > EXPIRY_LEEWAY_SECONDS && (now as u64) - EXPIRY_LEEWAY_SECONDS > exp {
                Err(AuthError::ExpiredToken)
            } else {
                Ok(Claims { sub, role, exp })
            }
        },
    }
}

/// Creates the signed token for a user, valid for 24 hours from `now`. It always gives
/// a token, and the token is accepted, with the same name and role, at any time up to
/// its expiry plus the leeway.
pub fn create_jwt_at(username: &str, role: &str, secret: &str, now: i64) -> (r: Result<
    String,
    InternalError,
>)
    requires
        0 <= now <= i64::MAX - AUTH_COOKIE_TTL_SECONDS,
    ensures
        r matches Ok(token) && {
            &&& jwt_text(username@, role@, (now + AUTH_COOKIE_TTL_SECONDS) as u64, encode_utf8(secret@))
                == Some(token@)
            &&& forall|later: int|
                later <= now + AUTH_COOKIE_TTL_SECONDS + EXPIRY_LEEWAY_SECONDS ==> #[trigger] token_verdict(
                    jwt_claims(token@, encode_utf8(secret@)),
                    later,
                ) == Ok::<(Seq<char>, Seq<char>, u64), AuthError>(
                    (username@, role@, (now + AUTH_COOKIE_TTL_SECONDS) as u64),
                )
            &&& is_token_text(token@)
        },
{
    let exp: u64 = (now + AUTH_COOKIE_TTL_SECONDS) as u64;
    match jwt_encode(username, role, exp, secret.as_bytes()) {
        Some(token) => Ok(token),
        None => Err(InternalError::TokenCreation),
    }
}

/// The view of a result that holds a text.
pub open spec fn text_result<E>(r: Result<String, E>) -> Result<Seq<char>, E> {
    match r {
        Ok(text) => Ok(text@),
        Err(e) => Err(e),
    }
}

/// Creates the signed token for a user, valid for 24 hours from the moment of the call.
/// It always gives a token: the one that signing gives for an expiry 24 hours after some
/// moment the clock can show, which reads under the secret with the same name, role and
/// expiry.
pub fn create_jwt(username: String, role: String, secret: &str) -> (r: Result<String, InternalError>)
    ensures
        r matches Ok(token) && is_token_text(token@) && exists|exp: u64|
            {
                &&& AUTH_COOKIE_TTL_SECONDS <= exp <= MAX_CLOCK_SECONDS + AUTH_COOKIE_TTL_SECONDS
                &&& #[trigger] jwt_text(username@, role@, exp, encode_utf8(secret@)) == Some(token@)
                &&& jwt_claims(token@, encode_utf8(secret@)) == Some((username@, role@, exp))
            },
{
    let claims = Claims::new(username, role);
    match jwt_encode(claims.sub.as_str(), claims.role.as_str(), claims.exp, secret.as_bytes()) {
        Some(token) => Ok(token),
        None => Err(InternalError::TokenCreation),
    }
}

/// Checks a token at time `now`: its structure and signature under the secret, then its
/// expiry with sixty seconds of leeway.
pub fn verify_jwt_at(token: &str, secret: &str, now: i64) -> (r: Result<Claims, AuthError>)
    ensures
        claims_result_view(r) == token_verdict(jwt_claims(token@, encode_utf8(secret@)), now as int),
{
    judge_claims(jwt_decode(token, secret.as_bytes()), now)
}

/// Checks a token against the clock. Whatever the clock says, a token that does not
/// read under the secret is invalid, and one that does is either accepted with the
/// claims it carries or found expired.
pub fn verify_jwt(token: &str, secret: &str) -> (r: Result<Claims, AuthError>)
    ensures
        exists|now: int|
            0 <= now <= MAX_CLOCK_SECONDS && claims_result_view(r) == #[trigger] token_verdict(
                jwt_claims(token@, encode_utf8(secret@)),
                now,
            ),
        match jwt_claims(token@, encode_utf8(secret@)) {
            None => r == Err::<Claims, AuthError>(AuthError::InvalidToken),
            Some(carried) => match r {
                Ok(claims) => claims@ == carried,
                Err(e) => e == AuthError::ExpiredToken,
            },
        },
{
    let now = current_unix_time();
    let r = verify_jwt_at(token, secret, now);
    assert(claims_result_view(r) == token_verdict(jwt_claims(token@, encode_utf8(secret@)), now as int));
    r
}

/// A token read under a secret is accepted at every moment up to its expiry plus the
/// leeway, with the name and role it carries.
pub proof fn lemma_unexpired_token_accepted(token: Seq<char>, secret: Seq<u8>, now: int)
    requires
        jwt_claims(token, secret) is Some,
        now <= jwt_claims(token, secret).unwrap().2 + EXPIRY_LEEWAY_SECONDS,
    ensures
        token_verdict(jwt_claims(token, secret), now) == Ok::<(Seq<char>, Seq<char>, u64), AuthError>(
            jwt_claims(token, secret).unwrap(),
        ),
{
}

/// Once the time is past a token's expiry plus the leeway, the token is refused as
/// expired, whatever else it carries.
pub proof fn lemma_expired_token_rejected(token: Seq<char>, secret: Seq<u8>, now: int)
    requires
        jwt_claims(token, secret) is Some,
        now > jwt_claims(token, secret).unwrap().2 + EXPIRY_LEEWAY_SECONDS,
    ensures
        token_verdict(jwt_claims(token, secret), now) == Err::<(Seq<char>, Seq<char>, u64), AuthError>(
            AuthError::ExpiredToken,
        ),
{
}

/// The token in an `Authorization` value of the form `Bearer <token>`: the scheme in any
/// mix of upper and lower case, one space, and a token that is not blank. Whitespace
/// around the value and around the token does not count.
pub open spec fn bearer_token(value: Seq<char>) -> Option<Seq<char>> {
    let trimmed = trim(value);
    let space = index_of(trimmed, ' ');
    if space >= trimmed.len() {
        None
    } else {
        let scheme = trimmed.take(space);
        let token = trim(trimmed.skip(space + 1));
        if eq_ignore_ascii_case(scheme, "Bearer"@) && token.len() > 0 {
            Some(token)
        } else {
            None
        }
    }
}

/// Reads the token out of an `Authorization` header value.
pub fn parse_bearer_token(value: &str) -> (r: Option<String>)
    ensures
        match r {
            Some(token) => bearer_token(value@) == Some(token@),
            None => bearer_token(value@) is None,
        },
{
    let chars = chars_of(value);
    let trimmed = trim_chars(chars.as_slice());
    let space = find_char(trimmed.as_slice(), ' ');
    if space >= trimmed.len() {
        return None;
    }
    let scheme = copy_range(trimmed.as_slice(), 0, space);
    let rest = copy_range(trimmed.as_slice(), space + 1, trimmed.len());
    let token = trim_chars(rest.as_slice());
    let bearer = chars_of("Bearer");
    proof {
        assert(trimmed@.take(space as int) =~= trimmed@.subrange(0, space as int));
        assert(trimmed@.skip(space + 1) =~= trimmed@.subrange(space + 1, trimmed@.len() as int));
    }
    if chars_eq_ignore_ascii_case(scheme.as_slice(), bearer.as_slice()) && token.len() > 0 {
        Some(string_of(token.as_slice()))
    } else {
        None
    }
}

/// The token a request carries: the bearer token of its `Authorization` value where that
/// holds one, else the value of its session cookie.
pub open spec fn chosen_token(authorization: Option<Seq<char>>, session_cookie: Option<Seq<char>>) -> Option<
    Seq<char>,
> {
    match authorization {
        Some(value) => if bearer_token(value) is Some {
            bearer_token(value)
        } else {
            session_cookie
        },
        None => session_cookie,
    }
}

/// Picks the token of a request from its `Authorization` value and its session cookie.
/// The header comes first.
pub fn choose_token(authorization: Option<&str>, session_cookie: Option<String>) -> (r: Option<String>)
    ensures
        match r {
            Some(token) => chosen_token(
                text_of(authorization),
                match session_cookie {
                    Some(c) => Some(c@),
                    None => None,
                },
            ) == Some(token@),
            None => chosen_token(
                text_of(authorization),
                match session_cookie {
                    Some(c) => Some(c@),
                    None => None,
                },
            ) is None,
        },
{
    if let Some(value) = authorization {
        if let Some(token) = parse_bearer_token(value) {
            return Some(token);
        }
    }
    session_cookie
}

/// The token that the fields of a request carry.
pub open spec fn token_in(fields: Map<Seq<char>, Seq<Seq<u8>>>) -> Option<Seq<char>> {
    chosen_token(
        first_text(field_values(fields, "authorization"@)),
        cookie_value(field_values(fields, "cookie"@), AUTH_COOKIE_NAME@),
    )
}

/// Finds the identity token of a request: in the `Authorization` header first, then in
/// the session cookie.
pub fn extract_token(headers: &HeaderMap) -> (r: Option<String>)
    ensures
        match r {
            Some(token) => token_in(header_fields(*headers)) == Some(token@),
            None => token_in(header_fields(*headers)) is None,
        },
{
    proof {
        reveal_strlit("authorization");
    }
    let authorization = header_text(headers, "authorization");
    let cookie = request_cookie(headers, AUTH_COOKIE_NAME);
    match authorization {
        Some(value) => choose_token(Some(value.as_str()), cookie),
        None => choose_token(None, cookie),
    }
}

/// Whether cookies are marked `Secure`. They are unless the setting says `false`, in any
/// mix of upper and lower case and with any whitespace around it.
pub open spec fn secure_by_setting(setting: Option<Seq<char>>) -> bool {
    match setting {
        Some(value) => !eq_ignore_ascii_case(trim(value), "false"@),
        None => true,
    }
}

/// Whether cookies are marked `Secure`, given the configured setting.
pub fn cookies_should_be_secure(setting: Option<&str>) -> (secure: bool)
    ensures
        secure == secure_by_setting(text_of(setting)),
{
    match setting {
        Some(value) => {
            let chars = chars_of(value);
            let trimmed = trim_chars(chars.as_slice());
            let word = chars_of("false");
            !chars_eq_ignore_ascii_case(trimmed.as_slice(), word.as_slice())
        },
        None => true,
    }
}

/// When a browser sends a cookie along with requests from other sites.
#[derive(Clone, Copy, Debug, PartialEq, Eq, Structural)]
pub enum SameSite {
    /// Never.
    Strict,
    /// Only when the user navigates to this site.
    Lax,
}

/// A cookie to be set on the client, with the attributes this library uses.
#[derive(Debug, Clone)]
pub struct SetCookie {
    pub name: String,
    pub value: String,
    pub path: String,
    pub http_only: bool,
    pub same_site: SameSite,
    pub max_age_seconds: i64,
    /// Whether the cookie carries an expiry at the Unix epoch, which removes it.
    pub expired: bool,
    pub secure: bool,
}

impl SetCookie {
    pub fn name(&self) -> (r: &str)
        ensures
            r@ == self.name@,
    {
        self.name.as_str()
    }

    pub fn value(&self) -> (r: &str)
        ensures
            r@ == self.value@,
    {
        self.value.as_str()
    }

    pub fn path(&self) -> (r: Option<&str>)
        ensures
            r matches Some(p) && p@ == self.path@,
    {
        Some(self.path.as_str())
    }

    pub fn http_only(&self) -> (r: Option<bool>)
        ensures
            r == Some(self.http_only),
    {
        Some(self.http_only)
    }

    pub fn secure(&self) -> (r: Option<bool>)
        ensures
            r == Some(self.secure),
    {
        Some(self.secure)
    }

    pub fn same_site(&self) -> (r: Option<SameSite>)
        ensures
            r == Some(self.same_site),
    {
        Some(self.same_site)
    }

    /// Lifetime in seconds.
    pub fn max_age(&self) -> (r: Option<i64>)
        ensures
            r == Some(self.max_age_seconds),
    {
        Some(self.max_age_seconds)
    }

    /// The expiry in seconds since the Unix epoch, where the cookie carries one.
    pub fn expires(&self) -> (r: Option<i64>)
        ensures
            r == if self.expired {
                Some(0i64)
            } else {
                None
            },
    {
        if self.expired {
            Some(0)
        } else {
            None
        }
    }
}

/// The word for a same-site policy in a `Set-Cookie` value.
pub open spec fn same_site_text(policy: SameSite) -> Seq<char> {
    match policy {
        SameSite::Strict => "Strict"@,
        SameSite::Lax => "Lax"@,
    }
}

/// The `Set-Cookie` value for a cookie with the given attributes: name and value, then
/// the attributes in a fixed order, each only where it applies.
pub open spec fn cookie_text(
    name: Seq<char>,
    value: Seq<char>,
    path: Seq<char>,
    http_only: bool,
    same_site: SameSite,
    max_age_seconds: int,
    expired: bool,
    secure: bool,
) -> Seq<char> {
    name + "="@ + value + (if http_only {
        "; HttpOnly"@
    } else {
        Seq::empty()
    }) + "; SameSite="@ + same_site_text(same_site) + (if secure {
        "; Secure"@
    } else {
        Seq::empty()
    }) + "; Path="@ + path + "; Max-Age="@ + decimal_text(max_age_seconds) + (if expired {
        "; Expires=Thu, 01 Jan 1970 00:00:00 GMT"@
    } else {
        Seq::empty()
    })
}

/// The `Set-Cookie` value of a cookie.
pub open spec fn set_cookie_text(cookie: SetCookie) -> Seq<char> {
    cookie_text(
        cookie.name@,
        cookie.value@,
        cookie.path@,
        cookie.http_only,
        cookie.same_site,
        cookie.max_age_seconds as int,
        cookie.expired,
        cookie.secure,
    )
}

/// The `Set-Cookie` value that carries an identity token.
pub open spec fn auth_cookie_text(token: Seq<char>, secure: bool) -> Seq<char> {
    cookie_text(
        AUTH_COOKIE_NAME@,
        token,
        "/"@,
        true,
        SameSite::Lax,
        AUTH_COOKIE_TTL_SECONDS as int,
        false,
        secure,
    )
}

/// The `Set-Cookie` value that removes the identity token from the client.
pub open spec fn auth_removal_text(secure: bool) -> Seq<char> {
    cookie_text(AUTH_COOKIE_NAME@, Seq::empty(), "/"@, true, SameSite::Lax, 0, true, secure)
}

/// Trusted: `Cookie::build`, the builder's attribute methods and `to_string` of the
/// `cookie` crate as `axum_extra` hands it on. The text is name and value, then
/// `HttpOnly`, `SameSite`, `Secure`, `Path`, `Max-Age` and `Expires` in that order, each
/// only where the cookie has it.
#[verifier::external_body]
pub(crate) fn render_cookie(cookie: &SetCookie) -> (text: String)
    ensures
        text@ == set_cookie_text(*cookie),
{
    Cookie::build((cookie.name.clone(), cookie.value.clone()))
        .http_only(cookie.http_only)
        .same_site(match cookie.same_site {
            SameSite::Strict => axum_extra::extract::cookie::SameSite::Strict,
            SameSite::Lax => axum_extra::extract::cookie::SameSite::Lax,
        })
        .secure(cookie.secure)
        .path(cookie.path.clone())
        .max_age(Duration::seconds(cookie.max_age_seconds))
        .expires(cookie.expired.then_some(OffsetDateTime::UNIX_EPOCH))
        .build()
        .to_string()
}

/// The cookie that carries an identity token: readable by the server only, sent along
/// on navigation, valid for 24 hours.
pub fn build_auth_cookie(token: &str, secure: bool) -> (cookie: SetCookie)
    ensures
        cookie.name@ == AUTH_COOKIE_NAME@,
        cookie.value@ == token@,
        cookie.path@ == "/"@,
        cookie.http_only,
        cookie.same_site == SameSite::Lax,
        cookie.max_age_seconds == AUTH_COOKIE_TTL_SECONDS,
        !cookie.expired,
        cookie.secure == secure,
        set_cookie_text(cookie) == auth_cookie_text(token@, secure),
{
    SetCookie {
        name: AUTH_COOKIE_NAME.to_owned(),
        value: token.to_owned(),
        path: "/".to_owned(),
        http_only: true,
        same_site: SameSite::Lax,
        max_age_seconds: AUTH_COOKIE_TTL_SECONDS,
        expired: false,
        secure,
    }
}

/// The cookie that removes the identity token from the client: empty, with no lifetime
/// left and an expiry in the past.
pub fn build_cookie_removal(secure: bool) -> (cookie: SetCookie)
    ensures
        cookie.name@ == AUTH_COOKIE_NAME@,
        cookie.value@ == Seq::<char>::empty(),
        cookie.path@ == "/"@,
        cookie.http_only,
        cookie.same_site == SameSite::Lax,
        cookie.max_age_seconds == 0,
        cookie.expired,
        cookie.secure == secure,
        set_cookie_text(cookie) == auth_removal_text(secure),
{
    proof {
        reveal_strlit("");
    }
    SetCookie {
        name: AUTH_COOKIE_NAME.to_owned(),
        value: "".to_owned(),
        path: "/".to_owned(),
        http_only: true,
        same_site: SameSite::Lax,
        max_age_seconds: 0,
        expired: true,
        secure,
    }
}

/// The fields of an answer with one more `Set-Cookie` value behind those it has.
pub open spec fn with_cookie(fields: Map<Seq<char>, Seq<Seq<u8>>>, text: Seq<char>) -> Map<
    Seq<char>,
    Seq<Seq<u8>>,
> {
    fields.insert("set-cookie"@, field_values(fields, "set-cookie"@).push(encode_utf8(text)))
}

/// The fields of an answer with a cookie added where its text can be a header value,
/// and as they are where it cannot.
pub open spec fn with_cookie_if_valid(fields: Map<Seq<char>, Seq<Seq<u8>>>, text: Seq<char>) -> Map<
    Seq<char>,
    Seq<Seq<u8>>,
> {
    if is_value_text(text) {
        with_cookie(fields, text)
    } else {
        fields
    }
}

/// The `Set-Cookie` value of a cookie whose name, value and path hold visible characters
/// only holds visible characters only, and so can be a header value.
pub proof fn lemma_cookie_text_visible(
    name: Seq<char>,
    value: Seq<char>,
    path: Seq<char>,
    http_only: bool,
    same_site: SameSite,
    max_age_seconds: int,
    expired: bool,
    secure: bool,
)
    requires
        is_visible_text(name),
        is_visible_text(value),
        is_visible_text(path),
    ensures
        is_visible_text(
            cookie_text(name, value, path, http_only, same_site, max_age_seconds, expired, secure),
        ),
        is_value_text(
            cookie_text(name, value, path, http_only, same_site, max_age_seconds, expired, secure),
        ),
{
    reveal_strlit("=");
    reveal_strlit("; HttpOnly");
    reveal_strlit("; SameSite=");
    reveal_strlit("Strict");
    reveal_strlit("Lax");
    reveal_strlit("; Secure");
    reveal_strlit("; Path=");
    reveal_strlit("; Max-Age=");
    reveal_strlit("; Expires=Thu, 01 Jan 1970 00:00:00 GMT");
    let nothing = Seq::<char>::empty();
    let equals = "="@;
    let http_flag = if http_only {
        "; HttpOnly"@
    } else {
        nothing
    };
    let site_label = "; SameSite="@;
    let site = same_site_text(same_site);
    let secure_flag = if secure {
        "; Secure"@
    } else {
        nothing
    };
    let path_label = "; Path="@;
    let age_label = "; Max-Age="@;
    let age = decimal_text(max_age_seconds);
    let expiry = if expired {
        "; Expires=Thu, 01 Jan 1970 00:00:00 GMT"@
    } else {
        nothing
    };
    crate::text::lemma_decimal_text_chars(max_age_seconds);
    assert(is_visible_text(age)) by {
        assert forall|i: int| 0 <= i < age.len() implies is_visible_char(#[trigger] age[i]) by {
            assert(crate::text::is_ascii_digit(age[i]) || age[i] == '-');
        }
    }
    let to_equals = name + equals;
    lemma_visible_concat(name, equals);
    let to_value = to_equals + value;
    lemma_visible_concat(to_equals, value);
    let to_http_flag = to_value + http_flag;
    lemma_visible_concat(to_value, http_flag);
    let to_site_label = to_http_flag + site_label;
    lemma_visible_concat(to_http_flag, site_label);
    let to_site = to_site_label + site;
    lemma_visible_concat(to_site_label, site);
    let to_secure_flag = to_site + secure_flag;
    lemma_visible_concat(to_site, secure_flag);
    let to_path_label = to_secure_flag + path_label;
    lemma_visible_concat(to_secure_flag, path_label);
    let to_path = to_path_label + path;
    lemma_visible_concat(to_path_label, path);
    let to_age_label = to_path + age_label;
    lemma_visible_concat(to_path, age_label);
    let to_age = to_age_label + age;
    lemma_visible_concat(to_age_label, age);
    let whole = to_age + expiry;
    lemma_visible_concat(to_age, expiry);
    assert(whole == cookie_text(name, value, path, http_only, same_site, max_age_seconds, expired, secure));
    lemma_visible_is_value(whole);
}

/// The cookie that carries an identity token of visible characters can be a header
/// value.
pub proof fn lemma_auth_cookie_is_value(token: Seq<char>, secure: bool)
    requires
        is_visible_text(token),
    ensures
        is_value_text(auth_cookie_text(token, secure)),
{
    reveal_strlit("ltcms_session");
    reveal_strlit("/");
    lemma_cookie_text_visible(
        AUTH_COOKIE_NAME@,
        token,
        "/"@,
        true,
        SameSite::Lax,
        AUTH_COOKIE_TTL_SECONDS as int,
        false,
        secure,
    );
}

/// The cookie that removes the identity token can always be a header value.
pub proof fn lemma_auth_removal_is_value(secure: bool)
    ensures
        is_value_text(auth_removal_text(secure)),
{
    reveal_strlit("ltcms_session");
    reveal_strlit("/");
    lemma_cookie_text_visible(AUTH_COOKIE_NAME@, Seq::empty(), "/"@, true, SameSite::Lax, 0, true, secure);
}

/// A signed token holds visible characters only.
pub proof fn lemma_token_text_visible(token: Seq<char>)
    requires
        is_token_text(token),
    ensures
        is_visible_text(token),
{
    assert forall|i: int| 0 <= i < token.len() implies is_visible_char(#[trigger] token[i]) by {
        assert(is_token_char(token[i]));
    }
}

/// Adds a cookie to an answer as one more `Set-Cookie` value, behind those the answer
/// has. A cookie whose text holds control characters is left out, and so is one that
/// the map of fields no longer takes; the answer then stays as it is. An answer with
/// fewer than `MAX_FIELD_NAMES` field names always takes a cookie free of control
/// characters.
pub fn append_auth_cookie(headers: &mut HeaderMap, cookie: SetCookie) -> (added: bool)
    ensures
        added ==> is_value_text(set_cookie_text(cookie)),
        added ==> header_fields(*final(headers)) == with_cookie(
            header_fields(*old(headers)),
            set_cookie_text(cookie),
        ),
        !added ==> header_fields(*final(headers)) == header_fields(*old(headers)),
        header_name_count(*old(headers)) < MAX_FIELD_NAMES && is_value_text(set_cookie_text(cookie))
            ==> added,
        header_name_count(*final(headers)) <= header_name_count(*old(headers)) + 1,
{
    let text = render_cookie(&cookie);
    proof {
        reveal_strlit("set-cookie");
    }
    append_header(headers, "set-cookie", text.as_str())
}

} // verus!
