//! Logging in and out: what is asked of a user name and a password, how a login key is
//! derived, and the decisions between the steps that need storage or time.

use vstd::prelude::*;
use vstd::string::StrSliceExecFns;
use vstd::utf8::encode_utf8;

use crate::clock::subsec_millis_now;
use crate::crypto::{
    BCRYPT_HASH_LENGTH, bcrypt_hash, bcrypt_verdict, bcrypt_verify, hex_encode, hex_lower,
    is_lower_hex_char, lemma_hex_lower_digits, sha256, sha256_digest,
};
use crate::errors::ValidationError;
use crate::secrets::{class_count, count_classes};
use crate::text::{
    ascii_lower_text, char_is_ascii_alnum, chars_of, is_ascii_alnum, lower_chars, string_of, trim,
    trim_chars,
};

verus! {

/// Most characters of a user name.
pub const MAX_USERNAME_LENGTH: usize = 50;

/// Fewest characters of a password.
pub const MIN_PASSWORD_LENGTH: usize = 12;

/// Most characters of a password.
pub const MAX_PASSWORD_LENGTH: usize = 128;

/// Fewest character classes (lower case, upper case, digit, symbol) of a password.
pub const MIN_PASSWORD_CLASSES: usize = 3;

/// A character that may stand in a user name: an ASCII letter or digit, `_`, `-` or `.`.
pub open spec fn is_username_char(c: char) -> bool {
    is_ascii_alnum(c) || c == '_' || c == '-' || c == '.'
}

/// What is asked of a user name, in the order in which it is checked: not empty, at
/// most fifty characters, and no character outside the allowed ones.
pub open spec fn username_verdict(username: Seq<char>) -> Result<(), ValidationError> {
    if username.len() == 0 {
        Err(ValidationError::UsernameEmpty)
    } else if username.len() > MAX_USERNAME_LENGTH {
        Err(ValidationError::UsernameTooLong)
    } else if exists|i: int| 0 <= i < username.len() && !is_username_char(#[trigger] username[i]) {
        Err(ValidationError::UsernameInvalidChars)
    } else {
        Ok(())
    }
}

/// What is asked of a password, in the order in which it is checked: twelve to 128
/// characters, from at least three of the four character classes.
pub open spec fn password_verdict(password: Seq<char>) -> Result<(), ValidationError> {
    if password.len() < MIN_PASSWORD_LENGTH {
        Err(ValidationError::PasswordTooShort)
    } else if password.len() > MAX_PASSWORD_LENGTH {
        Err(ValidationError::PasswordTooLong)
    } else if class_count(password) < MIN_PASSWORD_CLASSES {
        Err(ValidationError::PasswordTooSimple)
    } else {
        Ok(())
    }
}

/// Checks a user name.
pub fn validate_username(username: &str) -> (r: Result<(), ValidationError>)
    ensures
        r == username_verdict(username@),
{
    let chars = chars_of(username);
    if chars.len() == 0 {
        return Err(ValidationError::UsernameEmpty);
    }
    if chars.len() > MAX_USERNAME_LENGTH {
        return Err(ValidationError::UsernameTooLong);
    }
    let mut i: usize = 0;
    while i < chars.len()
        invariant
            i <= chars.len(),
            chars@ == username@,
            0 < chars.len() <= MAX_USERNAME_LENGTH,
            forall|k: int| 0 <= k < i ==> is_username_char(#[trigger] chars@[k]),
        decreases chars.len() - i,
    {
        let c = chars[i];
        if !(char_is_ascii_alnum(c) || c == '_' || c == '-' || c == '.') {
            assert(!is_username_char(username@[i as int]));
            return Err(ValidationError::UsernameInvalidChars);
        }
        i += 1;
    }
    Ok(())
}

/// Checks a password.
pub fn validate_password(password: &str) -> (r: Result<(), ValidationError>)
    ensures
        r == password_verdict(password@),
{
    let chars = chars_of(password);
    if chars.len() < MIN_PASSWORD_LENGTH {
        return Err(ValidationError::PasswordTooShort);
    }
    if chars.len() > MAX_PASSWORD_LENGTH {
        return Err(ValidationError::PasswordTooLong);
    }
    if count_classes(chars.as_slice()) < MIN_PASSWORD_CLASSES {
        return Err(ValidationError::PasswordTooSimple);
    }
    Ok(())
}

/// A user name as it is hashed: without surrounding whitespace, in lower case.
pub open spec fn normalized_identifier(username: Seq<char>) -> Seq<char> {
    ascii_lower_text(trim(username))
}

/// The key under which a user's failed logins are counted: the SHA-256 digest of the
/// salt followed by the normalized user name, in hexadecimal. The key does not give the
/// user name away.
pub open spec fn login_key(salt: Seq<char>, username: Seq<char>) -> Seq<char> {
    hex_lower(sha256(encode_utf8(salt) + encode_utf8(normalized_identifier(username))))
}

/// How many characters a login key has: two for each of the thirty-two bytes of the
/// digest.
pub const LOGIN_KEY_LENGTH: usize = 64;

/// Derives the key under which a user's failed logins are counted: always sixty-four
/// lower-case hexadecimal digits.
pub fn hash_login_identifier(salt: &str, username: &str) -> (key: String)
    ensures
        key@ == login_key(salt@, username@),
        key@.len() == LOGIN_KEY_LENGTH,
        forall|i: int| 0 <= i < LOGIN_KEY_LENGTH ==> is_lower_hex_char(#[trigger] key@[i]),
{
    let chars = chars_of(username);
    let trimmed = trim_chars(chars.as_slice());
    let lowered = lower_chars(trimmed.as_slice());
    let normalized = string_of(lowered.as_slice());
    let mut data: Vec<u8> = salt.as_bytes_vec();
    let ghost salted = data@;
    assert(salted == encode_utf8(salt@));
    let tail = normalized.as_str().as_bytes();
    assert(tail@ == encode_utf8(normalized_identifier(username@)));
    data.extend_from_slice(tail);
    assert(data@ == salted + tail@);
    let digest = sha256_digest(data.as_slice());
    proof {
        lemma_hex_lower_digits(digest@);
    }
    hex_encode(digest.as_slice())
}

/// Whether a login is good, given whether the user exists and what comparing the
/// password with the hash came to. An unknown user is never let in, whatever the
/// comparison with the stand-in hash says.
pub open spec fn credentials_valid(known_user: bool, verdict: Option<bool>) -> bool {
    known_user && verdict == Some(true)
}

/// Decides on a login from whether the user exists and what the password comparison
/// came to.
pub fn judge_credentials(known_user: bool, verdict: Option<bool>) -> (valid: bool)
    ensures
        valid == credentials_valid(known_user, verdict),
{
    match verdict {
        Some(matches) => known_user && matches,
        None => false,
    }
}

/// Compares a password with the stored hash of a user, or with a stand-in hash where
/// the user is unknown, so that both cases take the same work. Only a known user whose
/// hash matches is let in.
pub fn verify_credentials(stored_hash: Option<&str>, password: &str, dummy_hash: &str) -> (valid: bool)
    ensures
        valid == match stored_hash {
            Some(hash) => bcrypt_verdict(password@, hash@) == Some(true),
            None => false,
        },
{
    match stored_hash {
        Some(hash) => judge_credentials(true, password_matches(password, hash)),
        None => judge_credentials(false, password_matches(password, dummy_hash)),
    }
}

/// Whether a password matches a stored hash; `None` where the hash cannot be read.
pub fn password_matches(password: &str, hash: &str) -> (r: Option<bool>)
    ensures
        r == bcrypt_verdict(password@, hash@),
{
    bcrypt_verify(password, hash)
}

/// Hashes a password for storage. The salt is random, so two hashes of one password
/// differ; `None` where hashing fails. A hash that comes back is a text of sixty
/// characters against which the password verifies, so a user whose password is stored
/// this way can log in with it.
pub fn hash_password(password: &str) -> (r: Option<String>)
    ensures
        r matches Some(hash) ==> hash@.len() == BCRYPT_HASH_LENGTH && bcrypt_verdict(password@, hash@)
            == Some(true),
{
    bcrypt_hash(password)
}

/// The stand-in hash to fall back on where none can be generated.
pub const FALLBACK_DUMMY_HASH: &'static str = "$2b$12$eImiTXuWVxfM37uY4JANjQPzMzXZjQDzqzQpMv0xoGrTplPPNaE3W";

/// Picks the stand-in hash: the generated one where there is one, else the fixed one.
pub fn dummy_hash_or_fallback(generated: Option<String>) -> (hash: String)
    ensures
        hash@ == match generated {
            Some(h) => h@,
            None => FALLBACK_DUMMY_HASH@,
        },
{
    match generated {
        Some(hash) => hash,
        None => FALLBACK_DUMMY_HASH.to_owned(),
    }
}

/// A bcrypt hash to compare passwords with when the user is unknown, so that the
/// comparison is the same work as for a known user: a fresh hash of the word `dummy`,
/// or the fixed stand-in where none can be generated. Either way it has the length of
/// a bcrypt hash.
pub fn dummy_bcrypt_hash() -> (hash: String)
    ensures
        hash@.len() == BCRYPT_HASH_LENGTH,
        hash@ == FALLBACK_DUMMY_HASH@ || bcrypt_verdict("dummy"@, hash@) == Some(true),
{
    proof {
        reveal_strlit("$2b$12$eImiTXuWVxfM37uY4JANjQPzMzXZjQDzqzQpMv0xoGrTplPPNaE3W");
    }
    dummy_hash_or_fallback(hash_password("dummy"))
}

/// How long to wait before answering a login, in milliseconds, given the milliseconds
/// of the current second: between 100 and 299.
pub fn login_jitter_millis(subsec_millis: u32) -> (wait: u64)
    ensures
        wait == 100 + subsec_millis % 200,
        100 <= wait < 300,
{
    100 + (subsec_millis % 200) as u64
}

/// How long to wait before answering a login started now, in milliseconds. The wait
/// varies with the clock, always between 100 and 299.
pub fn login_jitter() -> (wait: u64)
    ensures
        100 <= wait < 300,
{
    login_jitter_millis(subsec_millis_now())
}

} // verus!
