//! Authentication and session security for a content-management backend:
//! validated secrets, signed identity tokens, user-bound anti-forgery tokens,
//! token revocation, login lockout and the HTTP header defences around them,
//! together with the checks on the content that editors and visitors send.

pub mod attempts;
pub mod auth;
pub mod clock;
pub mod content;
pub mod cors;
pub mod crypto;
pub mod csrf;
pub mod errors;
pub mod gate;
pub mod headers;
pub mod limits;
pub mod login;
pub mod models;
pub mod revocation;
pub mod secrets;
pub mod session;
pub mod table;
pub mod text;
