//! The failures a request can end in, the HTTP status of each and the text sent to the
//! client. Texts are deliberately generic where detail would help an attacker.

use vstd::prelude::*;
use vstd::string::StringExecFns;

use crate::text::{decimal_text, format_i64, string_of};

verus! {

/// A login request that is refused before any storage is touched.
#[derive(Clone, Copy, Debug, PartialEq, Eq, Structural)]
pub enum ValidationError {
    UsernameEmpty,
    UsernameTooLong,
    UsernameInvalidChars,
    PasswordTooShort,
    PasswordTooLong,
    PasswordTooSimple,
}

/// Why a request is not authenticated.
#[derive(Clone, Copy, Debug, PartialEq, Eq, Structural)]
pub enum AuthError {
    /// Neither the `Authorization` header nor the session cookie carries a token.
    MissingToken,
    /// The token is malformed or its signature does not verify.
    InvalidToken,
    /// The token's expiry, with the allowed clock skew, has passed.
    ExpiredToken,
    /// The token was revoked at logout.
    RevokedToken,
    /// Unknown user or wrong password; the two are not told apart.
    InvalidCredentials,
}

/// Why an anti-forgery check fails.
#[derive(Clone, Copy, Debug, PartialEq, Eq, Structural)]
pub enum CsrfError {
    /// A token was asked for without a user to bind it to.
    UsernameRequired,
    /// The user name is too long to be encoded.
    UsernameTooLong,
    /// The expiry of a new token cannot be counted.
    ExpiryOverflow,
    /// The request has no `x-csrf-token` header.
    MissingHeader,
    /// The request has no anti-forgery cookie.
    MissingCookie,
    /// Header and cookie differ.
    TokenMismatch,
    /// The token does not have exactly five fields.
    Malformed,
    /// The first field is not the supported version.
    UnsupportedVersion,
    /// The user field is not Base64.
    MalformedUsername,
    /// The user field does not decode to text.
    InvalidUsernameEncoding,
    /// The token was issued for another user.
    AccountMismatch,
    /// The expiry field is not a number.
    InvalidExpiry,
    /// The token's expiry has passed.
    Expired,
    /// The nonce is shorter than sixteen bytes.
    NonceTooShort,
    /// The signing key was refused.
    MacUnavailable,
    /// The signature field is not Base64.
    InvalidSignature,
    /// The signature is not the one the payload has under the secret.
    SignatureMismatch,
}

/// A failure on the server's side, not attributable to the caller.
#[derive(Clone, Copy, Debug, PartialEq, Eq, Structural)]
pub enum InternalError {
    /// Storage could not be read or written.
    Storage,
    /// A token could not be created.
    TokenCreation,
}

/// Every way a request can fail.
#[derive(Clone, Copy, Debug, PartialEq, Eq, Structural)]
pub enum ApiError {
    /// 400: malformed input.
    Validation(ValidationError),
    /// 401: missing, invalid, expired or revoked token, or bad credentials.
    Unauthenticated(AuthError),
    /// 429: a lockout is in force for this many more seconds.
    RateLimited(i64),
    /// 403: the anti-forgery check failed.
    Forbidden(CsrfError),
    /// 403: the role does not allow the action.
    InsufficientPermissions,
    /// 409: the resource changed under the request.
    Conflict,
    /// 500: storage or cryptography failed.
    Internal(InternalError),
}

/// The text of each anti-forgery failure.
pub open spec fn csrf_error_text(e: CsrfError) -> Seq<char> {
    match e {
        CsrfError::UsernameRequired => "Username required for CSRF token"@,
        CsrfError::UsernameTooLong => "Username too long for CSRF token"@,
        CsrfError::ExpiryOverflow => "Failed to compute CSRF expiry"@,
        CsrfError::MissingHeader => "Missing CSRF token header"@,
        CsrfError::MissingCookie => "Missing CSRF cookie"@,
        CsrfError::TokenMismatch => "CSRF token mismatch"@,
        CsrfError::Malformed => "Malformed CSRF token"@,
        CsrfError::UnsupportedVersion => "Unsupported CSRF token version"@,
        CsrfError::MalformedUsername => "Malformed CSRF username segment"@,
        CsrfError::InvalidUsernameEncoding => "Invalid CSRF username encoding"@,
        CsrfError::AccountMismatch => "CSRF token not issued for this account"@,
        CsrfError::InvalidExpiry => "Invalid CSRF expiry"@,
        CsrfError::Expired => "CSRF token expired"@,
        CsrfError::NonceTooShort => "CSRF nonce too short"@,
        CsrfError::MacUnavailable => "Failed to initialize CSRF HMAC"@,
        CsrfError::InvalidSignature => "Invalid CSRF signature"@,
        CsrfError::SignatureMismatch => "CSRF signature mismatch"@,
    }
}

impl CsrfError {
    /// The text sent to the client.
    pub fn message(&self) -> (text: &'static str)
        ensures
            text@ == csrf_error_text(*self),
    {
        match self {
            CsrfError::UsernameRequired => "Username required for CSRF token",
            CsrfError::UsernameTooLong => "Username too long for CSRF token",
            CsrfError::ExpiryOverflow => "Failed to compute CSRF expiry",
            CsrfError::MissingHeader => "Missing CSRF token header",
            CsrfError::MissingCookie => "Missing CSRF cookie",
            CsrfError::TokenMismatch => "CSRF token mismatch",
            CsrfError::Malformed => "Malformed CSRF token",
            CsrfError::UnsupportedVersion => "Unsupported CSRF token version",
            CsrfError::MalformedUsername => "Malformed CSRF username segment",
            CsrfError::InvalidUsernameEncoding => "Invalid CSRF username encoding",
            CsrfError::AccountMismatch => "CSRF token not issued for this account",
            CsrfError::InvalidExpiry => "Invalid CSRF expiry",
            CsrfError::Expired => "CSRF token expired",
            CsrfError::NonceTooShort => "CSRF nonce too short",
            CsrfError::MacUnavailable => "Failed to initialize CSRF HMAC",
            CsrfError::InvalidSignature => "Invalid CSRF signature",
            CsrfError::SignatureMismatch => "CSRF signature mismatch",
        }
    }
}

/// The text of each input failure.
pub open spec fn validation_error_text(e: ValidationError) -> Seq<char> {
    match e {
        ValidationError::UsernameEmpty => "Username cannot be empty"@,
        ValidationError::UsernameTooLong => "Username too long"@,
        ValidationError::UsernameInvalidChars => "Username contains invalid characters"@,
        ValidationError::PasswordTooShort => "Password must be at least 12 characters long"@,
        ValidationError::PasswordTooLong => "Password too long"@,
        ValidationError::PasswordTooSimple => "Password must contain at least three of: uppercase letter, lowercase letter, number, special character"@,
    }
}

impl ValidationError {
    /// The text sent to the client.
    pub fn message(&self) -> (text: &'static str)
        ensures
            text@ == validation_error_text(*self),
    {
        match self {
            ValidationError::UsernameEmpty => "Username cannot be empty",
            ValidationError::UsernameTooLong => "Username too long",
            ValidationError::UsernameInvalidChars => "Username contains invalid characters",
            ValidationError::PasswordTooShort => "Password must be at least 12 characters long",
            ValidationError::PasswordTooLong => "Password too long",
            ValidationError::PasswordTooSimple => "Password must contain at least three of: uppercase letter, lowercase letter, number, special character",
        }
    }
}

/// The text of each authentication failure. A bad signature and a passed expiry read
/// the same to the client.
pub open spec fn auth_error_text(e: AuthError) -> Seq<char> {
    match e {
        AuthError::MissingToken => "Missing authentication token"@,
        AuthError::InvalidToken => "Invalid token"@,
        AuthError::ExpiredToken => "Invalid token"@,
        AuthError::RevokedToken => "Token has been revoked"@,
        AuthError::InvalidCredentials => "Ungültige Anmeldedaten"@,
    }
}

impl AuthError {
    /// The text sent to the client.
    pub fn message(&self) -> (text: &'static str)
        ensures
            text@ == auth_error_text(*self),
    {
        match self {
            AuthError::MissingToken => "Missing authentication token",
            AuthError::InvalidToken => "Invalid token",
            AuthError::ExpiredToken => "Invalid token",
            AuthError::RevokedToken => "Token has been revoked",
            AuthError::InvalidCredentials => "Ungültige Anmeldedaten",
        }
    }
}

/// The text that tells a locked-out client how long to wait.
pub open spec fn lockout_text(remaining: i64) -> Seq<char> {
    "Zu viele fehlgeschlagene Versuche. Bitte warte "@ + decimal_text(remaining as int) + (if remaining
        == 1 {
        " Sekunde."@
    } else {
        " Sekunden."@
    })
}

/// The HTTP status of each failure.
pub open spec fn status_of(e: ApiError) -> u16 {
    match e {
        ApiError::Validation(_) => 400,
        ApiError::Unauthenticated(_) => 401,
        ApiError::RateLimited(_) => 429,
        ApiError::Forbidden(_) => 403,
        ApiError::InsufficientPermissions => 403,
        ApiError::Conflict => 409,
        ApiError::Internal(_) => 500,
    }
}

/// The text of each failure as the client sees it.
pub open spec fn api_error_text(e: ApiError) -> Seq<char> {
    match e {
        ApiError::Validation(v) => validation_error_text(v),
        ApiError::Unauthenticated(a) => auth_error_text(a),
        ApiError::RateLimited(remaining) => lockout_text(remaining),
        ApiError::Forbidden(c) => csrf_error_text(c),
        ApiError::InsufficientPermissions => "Insufficient permissions"@,
        ApiError::Conflict => "Conflict"@,
        ApiError::Internal(InternalError::Storage) => "Internal server error"@,
        ApiError::Internal(InternalError::TokenCreation) => "Failed to create token"@,
    }
}

/// The body of an error response.
#[derive(Debug)]
pub struct ErrorResponse {
    pub error: String,
}

impl ApiError {
    /// The HTTP status to answer with.
    pub fn status(&self) -> (code: u16)
        ensures
            code == status_of(*self),
    {
        match self {
            ApiError::Validation(_) => 400,
            ApiError::Unauthenticated(_) => 401,
            ApiError::RateLimited(_) => 429,
            ApiError::Forbidden(_) => 403,
            ApiError::InsufficientPermissions => 403,
            ApiError::Conflict => 409,
            ApiError::Internal(_) => 500,
        }
    }

    /// The text to answer with.
    pub fn message(&self) -> (text: String)
        ensures
            text@ == api_error_text(*self),
    {
        match self {
            ApiError::Validation(v) => String::from_str(v.message()),
            ApiError::Unauthenticated(a) => String::from_str(a.message()),
            ApiError::RateLimited(remaining) => {
                let mut text = String::from_str("Zu viele fehlgeschlagene Versuche. Bitte warte ");
                let digits = format_i64(*remaining);
                let number = string_of(digits.as_slice());
                text.append(number.as_str());
                if *remaining == 1 {
                    text.append(" Sekunde.");
                } else {
                    text.append(" Sekunden.");
                }
                text
            },
            ApiError::Forbidden(c) => String::from_str(c.message()),
            ApiError::InsufficientPermissions => String::from_str("Insufficient permissions"),
            ApiError::Conflict => String::from_str("Conflict"),
            ApiError::Internal(InternalError::Storage) => String::from_str("Internal server error"),
            ApiError::Internal(InternalError::TokenCreation) => String::from_str("Failed to create token"),
        }
    }

    /// The response body: the text under the key `error`.
    pub fn response(&self) -> (body: ErrorResponse)
        ensures
            body.error@ == api_error_text(*self),
    {
        ErrorResponse { error: self.message() }
    }
}

} // verus!
