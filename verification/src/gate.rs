//! The authentication gate: a request is let through as a user only if it carries a
//! token whose signature verifies, whose expiry has not passed, and which has not been
//! revoked.

use axum::http::HeaderMap;
use vstd::prelude::*;
use vstd::utf8::encode_utf8;

use crate::auth::{
    Claims, EXPIRY_LEEWAY_SECONDS, OptionalClaims, extract_token, jwt_claims, token_in,
    token_verdict, verify_jwt_at,
};
use crate::clock::{MAX_CLOCK_SECONDS, current_unix_time};
use crate::errors::{ApiError, AuthError, InternalError};
use crate::headers::header_fields;
use crate::revocation::RevocationStore;

verus! {

/// What becomes of verified claims once the revocation store has been asked: a revoked
/// token is refused, and where the store could not be read nobody is let in.
pub open spec fn lookup_verdict(lookup: Option<bool>) -> Result<(), ApiError> {
    match lookup {
        Some(true) => Err(ApiError::Unauthenticated(AuthError::RevokedToken)),
        Some(false) => Ok(()),
        None => Err(ApiError::Internal(InternalError::Storage)),
    }
}

/// Lets verified claims through unless their token is revoked or the revocation store
/// could not be read.
pub fn let_through(claims: Claims, lookup: Option<bool>) -> (r: Result<Claims, ApiError>)
    ensures
        match r {
            Ok(let_in) => lookup_verdict(lookup) is Ok && let_in == claims,
            Err(e) => lookup_verdict(lookup) == Err::<(), ApiError>(e),
        },
{
    match lookup {
        Some(true) => Err(ApiError::Unauthenticated(AuthError::RevokedToken)),
        Some(false) => Ok(claims),
        None => Err(ApiError::Internal(InternalError::Storage)),
    }
}

/// Whom a request speaks for at time `now`: it has to carry a token, the token has to
/// read under the secret and not be expired, and it must not have been revoked.
pub open spec fn admission_verdict(
    token: Option<Seq<char>>,
    secret: Seq<u8>,
    revoked: Map<Seq<char>, i64>,
    now: int,
) -> Result<(Seq<char>, Seq<char>, u64), ApiError> {
    match token {
        None => Err(ApiError::Unauthenticated(AuthError::MissingToken)),
        Some(text) => match token_verdict(jwt_claims(text, secret), now) {
            Err(e) => Err(ApiError::Unauthenticated(e)),
            Ok(carried) => if revoked.contains_key(text) {
                Err(ApiError::Unauthenticated(AuthError::RevokedToken))
            } else {
                Ok(carried)
            },
        },
    }
}

/// Whether the outcome of an authentication is what the verdict says.
pub open spec fn admission_agrees(
    r: Result<Claims, ApiError>,
    verdict: Result<(Seq<char>, Seq<char>, u64), ApiError>,
) -> bool {
    match r {
        Ok(claims) => verdict == Ok::<(Seq<char>, Seq<char>, u64), ApiError>(claims@),
        Err(e) => verdict == Err::<(Seq<char>, Seq<char>, u64), ApiError>(e),
    }
}

/// Authenticates a request at time `now`.
pub fn authenticate_at(headers: &HeaderMap, secret: &str, revoked: &RevocationStore, now: i64) -> (r: Result<
    Claims,
    ApiError,
>)
    requires
        revoked.wf(),
    ensures
        admission_agrees(
            r,
            admission_verdict(token_in(header_fields(*headers)), encode_utf8(secret@), revoked@, now as int),
        ),
{
    let token = match extract_token(headers) {
        Some(token) => token,
        None => {
            return Err(ApiError::Unauthenticated(AuthError::MissingToken));
        },
    };
    let claims = match verify_jwt_at(token.as_str(), secret, now) {
        Ok(claims) => claims,
        Err(e) => {
            return Err(ApiError::Unauthenticated(e));
        },
    };
    let_through(claims, Some(revoked.is_blacklisted(token.as_str())))
}

/// Authenticates a request against the clock. The outcome is the one that
/// `authenticate_at` gives at some moment the clock can show; a request without a token
/// is refused whatever the time.
pub fn authenticate(headers: &HeaderMap, secret: &str, revoked: &RevocationStore) -> (r: Result<
    Claims,
    ApiError,
>)
    requires
        revoked.wf(),
    ensures
        exists|now: int|
            0 <= now <= MAX_CLOCK_SECONDS && admission_agrees(
                r,
                #[trigger] admission_verdict(
                    token_in(header_fields(*headers)),
                    encode_utf8(secret@),
                    revoked@,
                    now,
                ),
            ),
{
    let now = current_unix_time();
    let r = authenticate_at(headers, secret, revoked, now);
    assert(admission_agrees(
        r,
        admission_verdict(token_in(header_fields(*headers)), encode_utf8(secret@), revoked@, now as int),
    ));
    r
}

/// Whether the outcome of an optional authentication is what the verdict says: a
/// request without a token is anonymous, any other is held to the full check.
pub open spec fn optional_admission_agrees(
    r: Result<OptionalClaims, ApiError>,
    token: Option<Seq<char>>,
    verdict: Result<(Seq<char>, Seq<char>, u64), ApiError>,
) -> bool {
    match r {
        Ok(OptionalClaims(None)) => token is None,
        Ok(OptionalClaims(Some(claims))) => token is Some && verdict == Ok::<
            (Seq<char>, Seq<char>, u64),
            ApiError,
        >(claims@),
        Err(e) => token is Some && verdict == Err::<(Seq<char>, Seq<char>, u64), ApiError>(e),
    }
}

/// Authenticates a request that may also be anonymous, at time `now`. No token means
/// anonymous; a token that fails the check is an error, not anonymity.
pub fn authenticate_optional_at(
    headers: &HeaderMap,
    secret: &str,
    revoked: &RevocationStore,
    now: i64,
) -> (r: Result<OptionalClaims, ApiError>)
    requires
        revoked.wf(),
    ensures
        optional_admission_agrees(
            r,
            token_in(header_fields(*headers)),
            admission_verdict(token_in(header_fields(*headers)), encode_utf8(secret@), revoked@, now as int),
        ),
{
    let token = match extract_token(headers) {
        Some(token) => token,
        None => {
            return Ok(OptionalClaims(None));
        },
    };
    let claims = match verify_jwt_at(token.as_str(), secret, now) {
        Ok(claims) => claims,
        Err(e) => {
            return Err(ApiError::Unauthenticated(e));
        },
    };
    match let_through(claims, Some(revoked.is_blacklisted(token.as_str()))) {
        Ok(claims) => Ok(OptionalClaims(Some(claims))),
        Err(e) => Err(e),
    }
}

/// Authenticates a request that may also be anonymous, against the clock.
pub fn authenticate_optional(headers: &HeaderMap, secret: &str, revoked: &RevocationStore) -> (r: Result<
    OptionalClaims,
    ApiError,
>)
    requires
        revoked.wf(),
    ensures
        exists|now: int|
            0 <= now <= MAX_CLOCK_SECONDS && optional_admission_agrees(
                r,
                token_in(header_fields(*headers)),
                #[trigger] admission_verdict(
                    token_in(header_fields(*headers)),
                    encode_utf8(secret@),
                    revoked@,
                    now,
                ),
            ),
{
    let now = current_unix_time();
    let r = authenticate_optional_at(headers, secret, revoked, now);
    assert(optional_admission_agrees(
        r,
        token_in(header_fields(*headers)),
        admission_verdict(token_in(header_fields(*headers)), encode_utf8(secret@), revoked@, now as int),
    ));
    r
}

/// Claims are trusted only if the token behind them reads under the secret, has not
/// expired beyond the leeway, and is not revoked.
pub proof fn lemma_trusted_claims_are_sound(
    token: Option<Seq<char>>,
    secret: Seq<u8>,
    revoked: Map<Seq<char>, i64>,
    now: int,
)
    requires
        admission_verdict(token, secret, revoked, now) is Ok,
    ensures
        token is Some,
        jwt_claims(token.unwrap(), secret) == Some(admission_verdict(token, secret, revoked, now).unwrap()),
        now <= jwt_claims(token.unwrap(), secret).unwrap().2 + EXPIRY_LEEWAY_SECONDS,
        !revoked.contains_key(token.unwrap()),
{
}

/// A revoked token is refused however good its signature and however far its expiry.
pub proof fn lemma_revoked_token_refused(
    token: Seq<char>,
    secret: Seq<u8>,
    revoked: Map<Seq<char>, i64>,
    now: int,
)
    requires
        revoked.contains_key(token),
    ensures
        admission_verdict(Some(token), secret, revoked, now) is Err,
{
}

/// Whether a role is the administrator's.
pub fn ensure_admin(claims: &Claims) -> (r: Result<(), ApiError>)
    ensures
        r == (if claims.role@ == "admin"@ {
            Ok::<(), ApiError>(())
        } else {
            Err::<(), ApiError>(ApiError::InsufficientPermissions)
        }),
{
    if crate::text::str_eq(claims.role.as_str(), "admin") {
        Ok(())
    } else {
        Err(ApiError::InsufficientPermissions)
    }
}

} // verus!
