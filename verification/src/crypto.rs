//! The cryptographic primitives the library relies on. Each call into another crate
//! stands behind one small function here; what is stated of it is taken on trust.

use base64ct::{Base64UrlUnpadded, Encoding};
use hmac::{Hmac, Mac};
use sha2::{Digest, Sha256};
use subtle::ConstantTimeEq;
use uuid::Uuid;
use vstd::prelude::*;

use crate::text::{is_ascii_alnum, is_ascii_digit};

verus! {

/// The URL-safe, unpadded Base64 text of a byte string.
pub uninterp spec fn base64url_text(bytes: Seq<u8>) -> Seq<char>;

/// The bytes that a Base64 text stands for, if it is the encoding of any.
pub open spec fn base64url_bytes(text: Seq<char>) -> Option<Seq<u8>> {
    if exists|bytes: Seq<u8>| #[trigger] base64url_text(bytes) == text {
        Some(choose|bytes: Seq<u8>| #[trigger] base64url_text(bytes) == text)
    } else {
        None
    }
}

/// A character of the URL-safe Base64 alphabet.
pub open spec fn is_base64url_char(c: char) -> bool {
    is_ascii_alnum(c) || c == '-' || c == '_'
}

/// Trusted: `Base64UrlUnpadded::encode_string` of `base64ct`. The text it returns is the
/// encoding of `bytes`, uses only the URL-safe alphabet, and is the encoding of no other
/// byte string, so decoding it gives `bytes` back. The call panics on inputs longer than
/// a quarter of the address space, which `requires` leaves out.
#[verifier::external_body]
pub(crate) fn base64url_encode(bytes: &[u8]) -> (text: String)
    requires
        bytes@.len() <= usize::MAX / 4,
    ensures
        text@ == base64url_text(bytes@),
        forall|i: int| 0 <= i < text@.len() ==> is_base64url_char(#[trigger] text@[i]),
        base64url_bytes(text@) == Some(bytes@),
{
    Base64UrlUnpadded::encode_string(bytes)
}

/// Trusted: `Base64UrlUnpadded::decode_vec` of `base64ct`. It accepts exactly the texts
/// that are the encoding of some byte string, and returns that byte string.
#[verifier::external_body]
pub(crate) fn base64url_decode(text: &str) -> (r: Option<Vec<u8>>)
    ensures
        match r {
            Some(bytes) => base64url_bytes(text@) == Some(bytes@),
            None => base64url_bytes(text@) is None,
        },
{
    Base64UrlUnpadded::decode_vec(text).ok()
}

/// The HMAC-SHA256 tag of a message under a key; `None` where the key is refused.
pub uninterp spec fn hmac_sha256(key: Seq<u8>, message: Seq<u8>) -> Option<Seq<u8>>;

/// Trusted: `Hmac::<Sha256>::new_from_slice`, `update` and `finalize` of `hmac` and
/// `sha2`. The result depends on the key and the message alone. A key of any length is
/// taken, so there always is a tag, and a tag is 32 bytes.
#[verifier::external_body]
pub(crate) fn hmac_sha256_tag(key: &[u8], message: &[u8]) -> (r: Option<Vec<u8>>)
    ensures
        r is Some,
        r matches Some(tag) ==> hmac_sha256(key@, message@) == Some(tag@),
        r matches Some(tag) ==> tag@.len() == 32,
{
    let mut mac = Hmac::<Sha256>::new_from_slice(key).ok()?;
    mac.update(message);
    Some(mac.finalize().into_bytes().to_vec())
}

/// The SHA-256 digest of a byte string.
pub uninterp spec fn sha256(data: Seq<u8>) -> Seq<u8>;

/// Trusted: `Sha256::digest` of `sha2`. The digest depends on the input alone and is 32
/// bytes.
#[verifier::external_body]
pub(crate) fn sha256_digest(data: &[u8]) -> (digest: Vec<u8>)
    ensures
        digest@ == sha256(data@),
        digest@.len() == 32,
{
    Sha256::digest(data).to_vec()
}

/// Trusted: `ConstantTimeEq::ct_eq` of `subtle` on byte slices. It tells whether the two
/// slices are equal, in time that does not depend on where they differ.
#[verifier::external_body]
pub(crate) fn subtle_equals(a: &[u8], b: &[u8]) -> (r: bool)
    ensures
        r == (a@ == b@),
{
    a.ct_eq(b).into()
}

/// A character of a hyphenated lower-case UUID.
pub open spec fn is_nonce_char(c: char) -> bool {
    is_ascii_digit(c) || (0x61 <= c as u32 <= 0x66) || c == '-'
}

/// Trusted: `Uuid::new_v4().to_string()` of `uuid`. Every outcome is a hyphenated
/// lower-case UUID: 36 characters, each a hexadecimal digit or `-`. Which one is chance.
#[verifier::external_body]
pub(crate) fn fresh_nonce() -> (nonce: String)
    ensures
        nonce@.len() == 36,
        forall|i: int| 0 <= i < 36 ==> is_nonce_char(#[trigger] nonce@[i]),
{
    Uuid::new_v4().to_string()
}

/// Whether a password matches a bcrypt hash; `None` where the hash cannot be read.
pub uninterp spec fn bcrypt_verdict(password: Seq<char>, hash: Seq<char>) -> Option<bool>;

/// Trusted: `bcrypt::verify`. The answer depends on the password and the hash alone.
#[verifier::external_body]
pub(crate) fn bcrypt_verify(password: &str, hash: &str) -> (r: Option<bool>)
    ensures
        r == bcrypt_verdict(password@, hash@),
{
    bcrypt::verify(password, hash).ok()
}

/// The length of every bcrypt hash text.
pub const BCRYPT_HASH_LENGTH: usize = 60;

/// Trusted: `bcrypt::hash` at the default cost. The salt is random, so which hash comes
/// back is chance; every hash that does is a text of sixty characters, and verifying
/// the same password against it, which takes the salt from the hash and computes the
/// hash anew, finds that it matches.
#[verifier::external_body]
pub(crate) fn bcrypt_hash(password: &str) -> (r: Option<String>)
    ensures
        r matches Some(hash) ==> hash@.len() == BCRYPT_HASH_LENGTH,
        r matches Some(hash) ==> bcrypt_verdict(password@, hash@) == Some(true),
{
    bcrypt::hash(password, bcrypt::DEFAULT_COST).ok()
}

/// The lower-case hexadecimal digit for a value below sixteen.
pub open spec fn hex_digit(v: int) -> char
    recommends
        0 <= v < 16,
{
    if v < 10 {
        ((0x30 + v) as u8) as char
    } else {
        ((0x61 + v - 10) as u8) as char
    }
}

/// Two lower-case hexadecimal digits for every byte, in order.
pub open spec fn hex_lower(bytes: Seq<u8>) -> Seq<char> {
    Seq::new(2 * bytes.len(), |i: int| if i % 2 == 0 {
        hex_digit(bytes[i / 2] as int / 16)
    } else {
        hex_digit(bytes[i / 2] as int % 16)
    })
}

/// Whether a character is a lower-case hexadecimal digit.
pub open spec fn is_lower_hex_char(c: char) -> bool {
    ('0' <= c && c <= '9') || ('a' <= c && c <= 'f')
}

/// Bytes written in hexadecimal take two characters each, every one a lower-case
/// hexadecimal digit.
pub proof fn lemma_hex_lower_digits(bytes: Seq<u8>)
    ensures
        hex_lower(bytes).len() == 2 * bytes.len(),
        forall|i: int| 0 <= i < 2 * bytes.len() ==> is_lower_hex_char(#[trigger] hex_lower(bytes)[i]),
{
    assert forall|i: int| 0 <= i < 2 * bytes.len() implies is_lower_hex_char(
        #[trigger] hex_lower(bytes)[i],
    ) by {
        let b = bytes[i / 2] as int;
        assert(0 <= b / 16 < 16 && 0 <= b % 16 < 16);
        assert forall|v: int| 0 <= v < 16 implies is_lower_hex_char(#[trigger] hex_digit(v)) by {
            if v < 10 {
                assert(hex_digit(v) as u32 == 0x30 + v);
            } else {
                assert(hex_digit(v) as u32 == 0x61 + v - 10);
            }
        }
    }
}

fn hex_digit_of(v: u8) -> (c: char)
    requires
        v < 16,
    ensures
        c == hex_digit(v as int),
{
    if v < 10 {
        (0x30u8 + v) as char
    } else {
        (0x61u8 + (v - 10)) as char
    }
}

/// Writes bytes as lower-case hexadecimal text.
pub fn hex_encode(bytes: &[u8]) -> (out: String)
    ensures
        out@ == hex_lower(bytes@),
{
    let mut out = String::new();
    let mut i: usize = 0;
    while i < bytes.len()
        invariant
            i <= bytes.len(),
            out@ == hex_lower(bytes@.take(i as int)),
        decreases bytes.len() - i,
    {
        let b: u8 = bytes[i];
        let ghost before = out@;
        out.push(hex_digit_of(b / 16));
        out.push(hex_digit_of(b % 16));
        proof {
            let shorter = bytes@.take(i as int);
            let longer = bytes@.take(i + 1);
            assert(longer.len() == i + 1);
            assert forall|k: int| 0 <= k < 2 * (i + 1) implies out@[k] == hex_lower(longer)[k] by {
                if k < 2 * i {
                    assert(out@[k] == before[k]);
                    assert(longer[k / 2] == shorter[k / 2]);
                } else {
                    assert(k / 2 == i);
                    assert(longer[i as int] == b);
                }
            }
            assert(out@ =~= hex_lower(longer));
        }
        i += 1;
    }
    assert(bytes@.take(bytes.len() as int) =~= bytes@);
    out
}

} // verus!
