//! Anti-forgery tokens: signed, bound to one user, valid for six hours.
//!
//! A token is `v1|base64url(username)|expiry|nonce|base64url(signature)`, where the
//! signature is the HMAC-SHA256 tag of the first four fields under the secret.

use axum::http::HeaderMap;
use vstd::prelude::*;
use vstd::string::StringExecFns;
use vstd::utf8::{decode_utf8, encode_utf8, valid_utf8};

use crate::auth::{
    Claims, SameSite, SetCookie, append_auth_cookie, cookie_text, lemma_cookie_text_visible,
    set_cookie_text, text_result, with_cookie,
};
use crate::clock::{MAX_CLOCK_SECONDS, current_unix_time};
use crate::crypto::{
    base64url_bytes, base64url_decode, base64url_encode, base64url_text, fresh_nonce, hmac_sha256,
    hmac_sha256_tag, is_base64url_char, is_nonce_char, subtle_equals,
};
use crate::errors::CsrfError;
use crate::headers::{
    MAX_FIELD_NAMES, cookie_value, field_values, first_text, header_fields, header_name_count,
    header_text, is_value_text, is_visible_char, is_visible_text, lemma_visible_concat,
    request_cookie,
};
use crate::text::{
    chars_eq, chars_of, decimal_text, format_i64, free_of, lemma_decimal_text_chars,
    lemma_parse_decimal_text, lemma_split_concat, lemma_split_free, lemma_split_last,
    lemma_split_push_piece, lemma_split_shape, lemma_split_single, parse_i64, parse_i64_chars,
    split_chars, split_on, str_eq, string_from_utf8, string_of, text_of,
};

verus! {

/// Lifetime of an anti-forgery token and of its cookie, in seconds: six hours.
pub const CSRF_TOKEN_TTL_SECONDS: i64 = 21600;

/// Fewest bytes of a nonce.
pub const MIN_NONCE_LENGTH: usize = 16;

/// Name of the cookie that carries the anti-forgery token.
pub fn csrf_cookie_name() -> (name: &'static str)
    ensures
        name@ == "ltcms_csrf"@,
{
    "ltcms_csrf"
}

/// Name of the request header in which the client repeats the anti-forgery token.
pub fn csrf_header_name() -> (name: &'static str)
    ensures
        name@ == "x-csrf-token"@,
{
    "x-csrf-token"
}

/// The separator between the fields of a token.
pub open spec fn bar() -> Seq<char> {
    seq!['|']
}

/// The version field of every token this library issues and accepts.
pub open spec fn version_text() -> Seq<char> {
    seq!['v', '1']
}

/// The first four fields of a token, which the signature covers.
pub open spec fn csrf_payload(user_field: Seq<char>, expiry: int, nonce: Seq<char>) -> Seq<char> {
    version_text() + bar() + user_field + bar() + decimal_text(expiry) + bar() + nonce
}

/// The fields of a token.
pub open spec fn csrf_fields(token: Seq<char>) -> Seq<Seq<char>> {
    split_on(token, '|')
}

/// Whether the user field stands for the expected user, given what it decodes to.
pub open spec fn subject_outcome(decoded: Option<Seq<u8>>, expected: Seq<char>) -> Result<(), CsrfError> {
    match decoded {
        None => Err(CsrfError::MalformedUsername),
        Some(bytes) => if !valid_utf8(bytes) {
            Err(CsrfError::InvalidUsernameEncoding)
        } else if decode_utf8(bytes) != expected {
            Err(CsrfError::AccountMismatch)
        } else {
            Ok(())
        },
    }
}

/// Whether the signature is the right one, given the tag of the payload and what the
/// signature field decodes to.
pub open spec fn signature_outcome(tag: Option<Seq<u8>>, provided: Option<Seq<u8>>) -> Result<
    (),
    CsrfError,
> {
    match tag {
        None => Err(CsrfError::MacUnavailable),
        Some(expected) => match provided {
            None => Err(CsrfError::InvalidSignature),
            Some(given) => if given != expected {
                Err(CsrfError::SignatureMismatch)
            } else {
                Ok(())
            },
        },
    }
}

/// What the signature of a five-field token with a readable expiry has to cover: the
/// first, second and fourth field as they stand, and the expiry written anew.
pub open spec fn signed_payload(token: Seq<char>) -> Seq<char> {
    let fields = csrf_fields(token);
    match parse_i64(fields[2]) {
        Some(expiry) => csrf_payload(fields[1], expiry as int, fields[3]),
        None => Seq::empty(),
    }
}

/// The checks on a token in the order in which they are made, given what its user field
/// decodes to, the tag of its payload and what its signature field decodes to.
pub open spec fn csrf_outcome(
    token: Seq<char>,
    expected: Seq<char>,
    now: int,
    subject: Option<Seq<u8>>,
    tag: Option<Seq<u8>>,
    signature: Option<Seq<u8>>,
) -> Result<(), CsrfError> {
    let fields = csrf_fields(token);
    if fields[0] != version_text() {
        Err(CsrfError::UnsupportedVersion)
    } else if fields.len() != 5 {
        Err(CsrfError::Malformed)
    } else if subject_outcome(subject, expected) is Err {
        subject_outcome(subject, expected)
    } else if encode_utf8(fields[3]).len() < MIN_NONCE_LENGTH {
        Err(CsrfError::NonceTooShort)
    } else {
        match parse_i64(fields[2]) {
            None => Err(CsrfError::InvalidExpiry),
            Some(expiry) => if expiry < now {
                Err(CsrfError::Expired)
            } else {
                signature_outcome(tag, signature)
            },
        }
    }
}

/// Whether a token is accepted for a user at a time under a secret, and if not, why.
pub open spec fn csrf_verdict(token: Seq<char>, expected: Seq<char>, now: int, secret: Seq<u8>) -> Result<
    (),
    CsrfError,
> {
    let fields = csrf_fields(token);
    csrf_outcome(
        token,
        expected,
        now,
        base64url_bytes(fields[1]),
        hmac_sha256(secret, encode_utf8(signed_payload(token))),
        base64url_bytes(fields[4]),
    )
}

/// Decides whether the user field stands for the expected user, from what it decodes to.
pub fn check_subject(decoded: Option<Vec<u8>>, expected: &str) -> (r: Result<(), CsrfError>)
    ensures
        r == subject_outcome(
            match decoded {
                Some(bytes) => Some(bytes@),
                None => None,
            },
            expected@,
        ),
{
    match decoded {
        None => Err(CsrfError::MalformedUsername),
        Some(bytes) => match string_from_utf8(bytes) {
            None => Err(CsrfError::InvalidUsernameEncoding),
            Some(username) => if str_eq(username.as_str(), expected) {
                Ok(())
            } else {
                Err(CsrfError::AccountMismatch)
            },
        },
    }
}

/// Decides whether the signature is the right one, from the tag of the payload and what
/// the signature field decodes to. The bytes are compared in constant time.
pub fn check_signature(tag: Option<Vec<u8>>, provided: Option<Vec<u8>>) -> (r: Result<(), CsrfError>)
    ensures
        r == signature_outcome(
            match tag {
                Some(bytes) => Some(bytes@),
                None => None,
            },
            match provided {
                Some(bytes) => Some(bytes@),
                None => None,
            },
        ),
{
    match tag {
        None => Err(CsrfError::MacUnavailable),
        Some(expected) => match provided {
            None => Err(CsrfError::InvalidSignature),
            Some(given) => if expected.len() != given.len() || !subtle_equals(
                expected.as_slice(),
                given.as_slice(),
            ) {
                Err(CsrfError::SignatureMismatch)
            } else {
                Ok(())
            },
        },
    }
}

fn push_all(out: &mut Vec<char>, more: &Vec<char>)
    ensures
        final(out)@ == old(out)@ + more@,
{
    let mut i: usize = 0;
    while i < more.len()
        invariant
            i <= more.len(),
            out@ == old(out)@ + more@.take(i as int),
        decreases more.len() - i,
    {
        out.push(more[i]);
        assert(old(out)@ + more@.take(i + 1) =~= (old(out)@ + more@.take(i as int)).push(more@[i as int]));
        i += 1;
    }
    assert(more@.take(more.len() as int) =~= more@);
}

fn build_payload(user_field: &Vec<char>, expiry: i64, nonce: &Vec<char>) -> (payload: Vec<char>)
    ensures
        payload@ == csrf_payload(user_field@, expiry as int, nonce@),
{
    let mut payload: Vec<char> = Vec::new();
    payload.push('v');
    payload.push('1');
    assert(payload@ =~= version_text());
    payload.push('|');
    push_all(&mut payload, user_field);
    payload.push('|');
    let digits = format_i64(expiry);
    push_all(&mut payload, &digits);
    payload.push('|');
    push_all(&mut payload, nonce);
    assert(payload@ =~= csrf_payload(user_field@, expiry as int, nonce@));
    payload
}

/// Checks an anti-forgery token for a user at time `now`: five fields, the supported
/// version, the expected user, a nonce of sixteen bytes or more, an expiry not yet
/// passed, and the signature of the payload under the secret.
pub fn validate_csrf_token(token: &str, expected_username: &str, secret: &[u8], now: i64) -> (r: Result<
    (),
    CsrfError,
>)
    ensures
        r == csrf_verdict(token@, expected_username@, now as int, secret@),
{
    let chars = chars_of(token);
    let pieces = split_chars(chars.as_slice(), '|');
    let ghost fields = csrf_fields(token@);
    assert(forall|k: int| 0 <= k < pieces.len() ==> #[trigger] pieces@[k]@ == fields[k]) by {
        assert forall|k: int| 0 <= k < pieces.len() implies #[trigger] pieces@[k]@ == fields[k] by {
            assert(pieces@.map_values(|piece: Vec<char>| piece@)[k] == pieces@[k]@);
        }
    }
    assert(pieces@.len() == fields.len()) by {
        assert(pieces@.map_values(|piece: Vec<char>| piece@).len() == pieces@.len());
    }
    let mut version: Vec<char> = Vec::new();
    version.push('v');
    version.push('1');
    assert(version@ =~= version_text());
    if !chars_eq(pieces[0].as_slice(), version.as_slice()) {
        return Err(CsrfError::UnsupportedVersion);
    }
    if pieces.len() != 5 {
        return Err(CsrfError::Malformed);
    }
    let user_field = string_of(pieces[1].as_slice());
    let subject = base64url_decode(user_field.as_str());
    match check_subject(subject, expected_username) {
        Err(e) => {
            return Err(e);
        },
        Ok(()) => {},
    }
    let nonce = string_of(pieces[3].as_slice());
    if nonce.as_str().as_bytes().len() < MIN_NONCE_LENGTH {
        return Err(CsrfError::NonceTooShort);
    }
    let expiry = match parse_i64_chars(pieces[2].as_slice()) {
        Some(expiry) => expiry,
        None => {
            return Err(CsrfError::InvalidExpiry);
        },
    };
    if expiry < now {
        return Err(CsrfError::Expired);
    }
    let payload_chars = build_payload(&pieces[1], expiry, &pieces[3]);
    let payload = string_of(payload_chars.as_slice());
    let tag = hmac_sha256_tag(secret, payload.as_str().as_bytes());
    let signature_field = string_of(pieces[4].as_slice());
    let provided = base64url_decode(signature_field.as_str());
    check_signature(tag, provided)
}

/// The token made of a payload and the Base64 text of its tag.
pub open spec fn token_text(username: Seq<char>, expiry: int, nonce: Seq<char>, tag: Seq<u8>) -> Seq<char> {
    csrf_payload(base64url_text(encode_utf8(username)), expiry, nonce) + bar() + base64url_text(tag)
}

/// What issuing a token for a user at time `now` with a given nonce comes to.
pub open spec fn issue_outcome(username: Seq<char>, secret: Seq<u8>, now: int, nonce: Seq<char>) -> Result<
    Seq<char>,
    CsrfError,
> {
    let expiry = now + CSRF_TOKEN_TTL_SECONDS;
    if username.len() == 0 {
        Err(CsrfError::UsernameRequired)
    } else if encode_utf8(username).len() > usize::MAX / 4 {
        Err(CsrfError::UsernameTooLong)
    } else if expiry > i64::MAX {
        Err(CsrfError::ExpiryOverflow)
    } else {
        match hmac_sha256(
            secret,
            encode_utf8(csrf_payload(base64url_text(encode_utf8(username)), expiry, nonce)),
        ) {
            None => Err(CsrfError::MacUnavailable),
            Some(tag) => Ok(token_text(username, expiry, nonce, tag)),
        }
    }
}

/// The fields of a token put together from pieces that hold no separator are those pieces.
pub proof fn lemma_token_fields(user_field: Seq<char>, expiry: int, nonce: Seq<char>, signature: Seq<char>)
    requires
        free_of(user_field, '|'),
        free_of(nonce, '|'),
        free_of(signature, '|'),
    ensures
        csrf_fields(csrf_payload(user_field, expiry, nonce) + bar() + signature) == seq![
            version_text(),
            user_field,
            decimal_text(expiry),
            nonce,
            signature,
        ],
{
    let v = version_text();
    let d = decimal_text(expiry);
    lemma_decimal_text_chars(expiry);
    assert(free_of(d, '|')) by {
        assert forall|i: int| 0 <= i < d.len() implies #[trigger] d[i] != '|' by {
            assert(crate::text::is_ascii_digit(d[i]) || d[i] == '-');
        }
    }
    assert(free_of(v, '|'));
    lemma_split_free(v, '|');
    lemma_split_push_piece(v, user_field, '|');
    lemma_split_push_piece(v + bar() + user_field, d, '|');
    lemma_split_push_piece(v + bar() + user_field + bar() + d, nonce, '|');
    lemma_split_push_piece(csrf_payload(user_field, expiry, nonce), signature, '|');
    assert(seq![v].push(user_field).push(d).push(nonce).push(signature) =~= seq![
        v,
        user_field,
        d,
        nonce,
        signature,
    ]);
}

/// Issues a token for a user at time `now` with the given nonce.
///
/// A token issued with a nonce that holds no `|` is refused for every other user at every
/// time; if the nonce also has sixteen bytes or more, the token is accepted for its own
/// user at every time up to its expiry.
pub fn issue_csrf_token_with(username: &str, secret: &[u8], now: i64, nonce: &str) -> (r: Result<
    String,
    CsrfError,
>)
    ensures
        match r {
            Ok(token) => issue_outcome(username@, secret@, now as int, nonce@) == Ok::<
                Seq<char>,
                CsrfError,
            >(token@),
            Err(e) => issue_outcome(username@, secret@, now as int, nonce@) == Err::<Seq<char>, CsrfError>(
                e,
            ),
        },
        r is Ok && free_of(nonce@, '|') ==> forall|other: Seq<char>, at: int|
            other != username@ ==> (#[trigger] csrf_verdict(r.unwrap()@, other, at, secret@)) is Err,
        r is Ok && free_of(nonce@, '|') && encode_utf8(nonce@).len() >= MIN_NONCE_LENGTH ==> forall|at: int|
            at <= now + CSRF_TOKEN_TTL_SECONDS ==> #[trigger] csrf_verdict(
                r.unwrap()@,
                username@,
                at,
                secret@,
            ) == Ok::<(), CsrfError>(()),
        r is Ok <==> username@.len() > 0 && encode_utf8(username@).len() <= usize::MAX / 4 && now
            + CSRF_TOKEN_TTL_SECONDS <= i64::MAX,
        r is Ok && is_visible_text(nonce@) ==> is_visible_text(r.unwrap()@),
{
    if username.is_empty() {
        return Err(CsrfError::UsernameRequired);
    }
    if username.as_bytes().len() > usize::MAX / 4 {
        return Err(CsrfError::UsernameTooLong);
    }
    let expiry = match now.checked_add(CSRF_TOKEN_TTL_SECONDS) {
        Some(expiry) => expiry,
        None => {
            return Err(CsrfError::ExpiryOverflow);
        },
    };
    let user_field = base64url_encode(username.as_bytes());
    let user_chars = chars_of(user_field.as_str());
    let nonce_chars = chars_of(nonce);
    let payload_chars = build_payload(&user_chars, expiry, &nonce_chars);
    let payload = string_of(payload_chars.as_slice());
    let tag = match hmac_sha256_tag(secret, payload.as_str().as_bytes()) {
        Some(tag) => tag,
        None => {
            return Err(CsrfError::MacUnavailable);
        },
    };
    let signature = base64url_encode(tag.as_slice());
    let mut token = payload;
    token.append("|");
    token.append(signature.as_str());
    proof {
        reveal_strlit("|");
        assert("|"@ =~= bar());
        let text = token@;
        assert(text == token_text(username@, expiry as int, nonce@, tag@));
        if is_visible_text(nonce@) {
            let v = version_text();
            let d = decimal_text(expiry as int);
            lemma_decimal_text_chars(expiry as int);
            assert(is_visible_text(d)) by {
                assert forall|i: int| 0 <= i < d.len() implies is_visible_char(#[trigger] d[i]) by {
                    assert(crate::text::is_ascii_digit(d[i]) || d[i] == '-');
                }
            }
            assert(is_visible_text(user_field@)) by {
                assert forall|i: int| 0 <= i < user_field@.len() implies is_visible_char(
                    #[trigger] user_field@[i],
                ) by {
                    assert(is_base64url_char(user_field@[i]));
                }
            }
            assert(is_visible_text(signature@)) by {
                assert forall|i: int| 0 <= i < signature@.len() implies is_visible_char(
                    #[trigger] signature@[i],
                ) by {
                    assert(is_base64url_char(signature@[i]));
                }
            }
            lemma_visible_concat(v, bar());
            lemma_visible_concat(v + bar(), user_field@);
            lemma_visible_concat(v + bar() + user_field@, bar());
            lemma_visible_concat(v + bar() + user_field@ + bar(), d);
            lemma_visible_concat(v + bar() + user_field@ + bar() + d, bar());
            lemma_visible_concat(v + bar() + user_field@ + bar() + d + bar(), nonce@);
            lemma_visible_concat(payload_chars@, bar());
            lemma_visible_concat(payload_chars@ + bar(), signature@);
        }
        if free_of(nonce@, '|') {
            assert(free_of(user_field@, '|')) by {
                assert forall|i: int| 0 <= i < user_field@.len() implies #[trigger] user_field@[i]
                    != '|' by {
                    assert(is_base64url_char(user_field@[i]));
                }
            }
            assert(free_of(signature@, '|')) by {
                assert forall|i: int| 0 <= i < signature@.len() implies #[trigger] signature@[i]
                    != '|' by {
                    assert(is_base64url_char(signature@[i]));
                }
            }
            lemma_token_fields(user_field@, expiry as int, nonce@, signature@);
            let fields = csrf_fields(text);
            assert(fields[0] == version_text());
            assert(fields[1] == user_field@);
            assert(fields[2] == decimal_text(expiry as int));
            assert(fields[3] == nonce@);
            assert(fields[4] == signature@);
            vstd::utf8::encode_utf8_valid_utf8(username@);
            vstd::utf8::encode_utf8_decode_utf8(username@);
            lemma_parse_decimal_text(expiry as int);
            assert(parse_i64(fields[2]) == Some(expiry));
            assert(signed_payload(text) == payload_chars@);
            assert forall|other: Seq<char>, at: int| other != username@ implies (#[trigger] csrf_verdict(
                text,
                other,
                at,
                secret@,
            )) is Err by {
                assert(subject_outcome(base64url_bytes(fields[1]), other) == Err::<(), CsrfError>(
                    CsrfError::AccountMismatch,
                ));
            }
            if encode_utf8(nonce@).len() >= MIN_NONCE_LENGTH {
                assert forall|at: int| at <= now + CSRF_TOKEN_TTL_SECONDS implies #[trigger] csrf_verdict(
                    text,
                    username@,
                    at,
                    secret@,
                ) == Ok::<(), CsrfError>(()) by {
                    assert(subject_outcome(base64url_bytes(fields[1]), username@) == Ok::<
                        (),
                        CsrfError,
                    >(()));
                }
            }
        }
    }
    Ok(token)
}

/// A token is accepted for at most one user: if it passes for `owner`, it fails for
/// everyone else, at any time and under any secret.
pub proof fn lemma_token_bound_to_one_user(
    token: Seq<char>,
    owner: Seq<char>,
    other: Seq<char>,
    now: int,
    later: int,
    secret: Seq<u8>,
    other_secret: Seq<u8>,
)
    requires
        csrf_verdict(token, owner, now, secret) is Ok,
        other != owner,
    ensures
        csrf_verdict(token, other, later, other_secret) is Err,
{
    let fields = csrf_fields(token);
    assert(subject_outcome(base64url_bytes(fields[1]), owner) is Ok);
    assert(subject_outcome(base64url_bytes(fields[1]), other) is Err);
}

/// Changing anything in the signature field of an accepted token gets it refused: a
/// text that agrees with the token on everything before the signature field, and is not
/// the token, is never accepted in its place.
pub proof fn lemma_tampered_signature_rejected(
    token: Seq<char>,
    tampered: Seq<char>,
    user: Seq<char>,
    now: int,
    secret: Seq<u8>,
)
    requires
        csrf_verdict(token, user, now, secret) is Ok,
        tampered != token,
        tampered.len() >= token.len() - csrf_fields(token)[4].len(),
        tampered.take(token.len() - csrf_fields(token)[4].len()) == token.take(
            token.len() - csrf_fields(token)[4].len(),
        ),
    ensures
        csrf_verdict(tampered, user, now, secret) is Err,
{
    let fields = csrf_fields(token);
    assert(fields.len() == 5);
    let last = fields[4];
    assert(last == fields.last());
    lemma_split_last(token, '|');
    let k = token.len() - last.len();
    let head = token.take(k);
    let tail = tampered.skip(k);
    assert(tampered =~= head + tail);
    assert(token =~= head + last);
    assert(split_on(head, '|') == fields.drop_last().push(Seq::<char>::empty()));
    lemma_split_concat(head, tail, '|');
    lemma_split_shape(tail, '|');
    let pieces = split_on(tail, '|');
    let before = split_on(head, '|');
    assert(before.drop_last() =~= fields.drop_last());
    assert(before.last() + pieces[0] =~= pieces[0]);
    let changed = csrf_fields(tampered);
    assert(changed == fields.drop_last().push(pieces[0]) + pieces.drop_first());
    assert(changed[0] == fields[0]);
    if pieces.len() > 1 {
        assert(changed.len() > 5);
    } else {
        lemma_split_single(tail, '|');
        assert(pieces[0] == tail);
        assert(changed =~= seq![fields[0], fields[1], fields[2], fields[3], tail]);
        assert(tail != last);
        assert(signed_payload(tampered) == signed_payload(token));
        let tag = hmac_sha256(secret, encode_utf8(signed_payload(token)));
        assert(signature_outcome(tag, base64url_bytes(last)) is Ok);
        assert(base64url_text(tag.unwrap()) == last);
        if base64url_bytes(tail) is Some {
            assert(base64url_text(base64url_bytes(tail).unwrap()) == tail);
            assert(base64url_bytes(tail).unwrap() != tag.unwrap());
        }
        assert(signature_outcome(tag, base64url_bytes(tail)) is Err);
    }
}

/// Whether a token issued at `issued` is accepted for the user at every time up to six
/// hours after.
pub open spec fn accepted_from(token: Seq<char>, username: Seq<char>, secret: Seq<u8>, issued: int) -> bool {
    forall|at: int|
        at <= issued + CSRF_TOKEN_TTL_SECONDS ==> #[trigger] csrf_verdict(token, username, at, secret)
            == Ok::<(), CsrfError>(())
}

/// What holds of a token just issued for a user: it is refused for every other user at
/// every time, and it is accepted for its own user from some moment the clock can show
/// until six hours after.
pub open spec fn fresh_token_for(token: Seq<char>, username: Seq<char>, secret: Seq<u8>) -> bool {
    &&& forall|other: Seq<char>, at: int|
        other != username ==> (#[trigger] csrf_verdict(token, other, at, secret)) is Err
    &&& exists|issued: int|
        0 <= issued <= MAX_CLOCK_SECONDS && #[trigger] accepted_from(token, username, secret, issued)
}

/// A moment the clock can show and a nonce as they are generated: thirty-six characters
/// of a hyphenated lower-case UUID.
pub open spec fn clock_and_nonce(now: int, nonce: Seq<char>) -> bool {
    &&& 0 <= now <= MAX_CLOCK_SECONDS
    &&& nonce.len() == 36
    &&& forall|i: int| 0 <= i < nonce.len() ==> is_nonce_char(#[trigger] nonce[i])
}

/// Whether a token can be issued for a user name: the name is not empty and not too
/// long to be encoded.
pub open spec fn can_issue_for(username: Seq<char>) -> bool {
    username.len() > 0 && encode_utf8(username).len() <= usize::MAX / 4
}

/// Whether a token is one that issuing gives for the user at some moment the clock can
/// show with some freshly generated nonce.
pub open spec fn issued_for(token: Seq<char>, username: Seq<char>, secret: Seq<u8>) -> bool {
    exists|now: int, nonce: Seq<char>|
        #[trigger] clock_and_nonce(now, nonce) && issue_outcome(username, secret, now, nonce) == Ok::<
            Seq<char>,
            CsrfError,
        >(token)
}

/// Issues a token for a user, valid for six hours from the moment of the call, with a
/// fresh random nonce. It succeeds exactly for a user name that is not empty and not
/// too long to be encoded, and the outcome is the one that issuing gives for some
/// moment the clock can show and some freshly generated nonce. A token that comes back
/// holds visible characters only, is refused for every other user at every time, and
/// is accepted for its own user from the moment it was issued until six hours after.
pub fn issue_csrf_token(username: &str, secret: &[u8]) -> (r: Result<String, CsrfError>)
    ensures
        r is Ok <==> can_issue_for(username@),
        exists|now: int, nonce: Seq<char>|
            #[trigger] clock_and_nonce(now, nonce) && issue_outcome(username@, secret@, now, nonce)
                == text_result(r),
        r matches Ok(token) ==> fresh_token_for(token@, username@, secret@) && is_visible_text(token@),
        r matches Ok(token) ==> issued_for(token@, username@, secret@),
{
    let now = current_unix_time();
    let nonce = fresh_nonce();
    proof {
        assert(free_of(nonce@, '|')) by {
            assert forall|i: int| 0 <= i < nonce@.len() implies #[trigger] nonce@[i] != '|' by {
                assert(is_nonce_char(nonce@[i]));
            }
        }
        assert(is_visible_text(nonce@)) by {
            assert forall|i: int| 0 <= i < nonce@.len() implies is_visible_char(#[trigger] nonce@[i]) by {
                assert(is_nonce_char(nonce@[i]));
            }
        }
        assert(vstd::utf8::is_ascii_chars(nonce@)) by {
            assert forall|i: int| 0 <= i < nonce@.len() implies '\0' <= #[trigger] nonce@[i]
                <= '\u{7f}' by {
                let c = nonce@[i];
                assert(is_nonce_char(c));
                let code = c as u32;
                vstd::utf8::char_u32_cast(c, code);
                assert(code < 128);
            }
        }
        vstd::utf8::is_ascii_chars_encode_utf8(nonce@);
    }
    let r = issue_csrf_token_with(username, secret, now, nonce.as_str());
    proof {
        assert(clock_and_nonce(now as int, nonce@));
        assert(issue_outcome(username@, secret@, now as int, nonce@) == text_result(r));
        if r is Ok {
            assert(accepted_from(r.unwrap()@, username@, secret@, now as int));
        }
    }
    r
}

/// The `Set-Cookie` value that carries an anti-forgery token.
pub open spec fn csrf_cookie_text(token: Seq<char>, secure: bool) -> Seq<char> {
    cookie_text(
        "ltcms_csrf"@,
        token,
        "/"@,
        false,
        SameSite::Strict,
        CSRF_TOKEN_TTL_SECONDS as int,
        false,
        secure,
    )
}

/// The `Set-Cookie` value that removes the anti-forgery token from the client.
pub open spec fn csrf_removal_text(secure: bool) -> Seq<char> {
    cookie_text("ltcms_csrf"@, Seq::empty(), "/"@, false, SameSite::Strict, 0, true, secure)
}

/// The cookie that carries an anti-forgery token: readable by scripts, which have to
/// repeat it in a header, never sent along from other sites, valid for six hours.
pub fn build_csrf_cookie(token: &str, secure: bool) -> (cookie: SetCookie)
    ensures
        cookie.name@ == "ltcms_csrf"@,
        cookie.value@ == token@,
        cookie.path@ == "/"@,
        !cookie.http_only,
        cookie.same_site == SameSite::Strict,
        cookie.max_age_seconds == CSRF_TOKEN_TTL_SECONDS,
        !cookie.expired,
        cookie.secure == secure,
        set_cookie_text(cookie) == csrf_cookie_text(token@, secure),
{
    SetCookie {
        name: csrf_cookie_name().to_owned(),
        value: token.to_owned(),
        path: "/".to_owned(),
        http_only: false,
        same_site: SameSite::Strict,
        max_age_seconds: CSRF_TOKEN_TTL_SECONDS,
        expired: false,
        secure,
    }
}

/// The cookie that removes the anti-forgery token from the client.
pub fn build_csrf_removal(secure: bool) -> (cookie: SetCookie)
    ensures
        cookie.name@ == "ltcms_csrf"@,
        cookie.value@ == Seq::<char>::empty(),
        cookie.path@ == "/"@,
        !cookie.http_only,
        cookie.same_site == SameSite::Strict,
        cookie.max_age_seconds == 0,
        cookie.expired,
        cookie.secure == secure,
        set_cookie_text(cookie) == csrf_removal_text(secure),
{
    proof {
        reveal_strlit("");
    }
    SetCookie {
        name: csrf_cookie_name().to_owned(),
        value: "".to_owned(),
        path: "/".to_owned(),
        http_only: false,
        same_site: SameSite::Strict,
        max_age_seconds: 0,
        expired: true,
        secure,
    }
}

/// Adds the anti-forgery cookie for a token to an answer, behind the cookies the answer
/// has. The answer stays as it is where the cookie's text holds control characters or
/// the map of fields no longer takes it; an answer with fewer than `MAX_FIELD_NAMES`
/// field names always takes a cookie free of control characters.
pub fn append_csrf_cookie(headers: &mut HeaderMap, token: &str, secure: bool) -> (added: bool)
    ensures
        added ==> is_value_text(csrf_cookie_text(token@, secure)),
        added ==> header_fields(*final(headers)) == with_cookie(
            header_fields(*old(headers)),
            csrf_cookie_text(token@, secure),
        ),
        !added ==> header_fields(*final(headers)) == header_fields(*old(headers)),
        header_name_count(*old(headers)) < MAX_FIELD_NAMES && is_value_text(
            csrf_cookie_text(token@, secure),
        ) ==> added,
        header_name_count(*final(headers)) <= header_name_count(*old(headers)) + 1,
{
    let cookie = build_csrf_cookie(token, secure);
    append_auth_cookie(headers, cookie)
}

/// The cookie that removes the anti-forgery token can always be a header value.
pub proof fn lemma_csrf_removal_is_value(secure: bool)
    ensures
        is_value_text(csrf_removal_text(secure)),
{
    reveal_strlit("ltcms_csrf");
    reveal_strlit("/");
    lemma_cookie_text_visible(
        "ltcms_csrf"@,
        Seq::empty(),
        "/"@,
        false,
        SameSite::Strict,
        0,
        true,
        secure,
    );
}

/// The cookie that carries an anti-forgery token of visible characters can be a header
/// value.
pub proof fn lemma_csrf_cookie_is_value(token: Seq<char>, secure: bool)
    requires
        is_visible_text(token),
    ensures
        is_value_text(csrf_cookie_text(token, secure)),
{
    reveal_strlit("ltcms_csrf");
    reveal_strlit("/");
    lemma_cookie_text_visible(
        "ltcms_csrf"@,
        token,
        "/"@,
        false,
        SameSite::Strict,
        CSRF_TOKEN_TTL_SECONDS as int,
        false,
        secure,
    );
}

/// Adds the cookie that removes the anti-forgery token to an answer. An answer with
/// fewer than `MAX_FIELD_NAMES` field names always takes it; beyond that the map of
/// fields may refuse, and the answer then stays as it is.
pub fn append_csrf_removal(headers: &mut HeaderMap, secure: bool) -> (added: bool)
    ensures
        added ==> header_fields(*final(headers)) == with_cookie(
            header_fields(*old(headers)),
            csrf_removal_text(secure),
        ),
        !added ==> header_fields(*final(headers)) == header_fields(*old(headers)),
        header_name_count(*old(headers)) < MAX_FIELD_NAMES ==> added,
        header_name_count(*final(headers)) <= header_name_count(*old(headers)) + 1,
{
    let cookie = build_csrf_removal(secure);
    proof {
        lemma_csrf_removal_is_value(secure);
    }
    append_auth_cookie(headers, cookie)
}

/// Whether a method never changes state, so that it needs no anti-forgery check.
pub open spec fn is_safe_method(method: Seq<char>) -> bool {
    method == "GET"@ || method == "HEAD"@ || method == "OPTIONS"@ || method == "TRACE"@
}

/// The anti-forgery check on a request, given its method, the user it is authenticated
/// as, if any, the token in its header and the token in its cookie. Safe methods and
/// anonymous requests pass. Any other request needs both tokens, equal to each other,
/// and the token has to pass for the user.
pub open spec fn guard_verdict(
    method: Seq<char>,
    user: Option<Seq<char>>,
    header_token: Option<Seq<char>>,
    cookie_token: Option<Seq<char>>,
    now: int,
    secret: Seq<u8>,
) -> Result<(), CsrfError> {
    if is_safe_method(method) {
        Ok(())
    } else {
        match user {
            None => Ok(()),
            Some(name) => match header_token {
                None => Err(CsrfError::MissingHeader),
                Some(sent) => match cookie_token {
                    None => Err(CsrfError::MissingCookie),
                    Some(stored) => if stored != sent {
                        Err(CsrfError::TokenMismatch)
                    } else {
                        csrf_verdict(sent, name, now, secret)
                    },
                },
            },
        }
    }
}

/// Whether a method never changes state.
pub fn method_is_safe(method: &str) -> (safe: bool)
    ensures
        safe == is_safe_method(method@),
{
    str_eq(method, "GET") || str_eq(method, "HEAD") || str_eq(method, "OPTIONS") || str_eq(
        method,
        "TRACE",
    )
}

/// Makes the anti-forgery check on a request from its parts.
pub fn check_csrf_tokens(
    method: &str,
    user: Option<&str>,
    header_token: Option<&str>,
    cookie_token: Option<&str>,
    secret: &[u8],
    now: i64,
) -> (r: Result<(), CsrfError>)
    ensures
        r == guard_verdict(
            method@,
            text_of(user),
            text_of(header_token),
            text_of(cookie_token),
            now as int,
            secret@,
        ),
{
    if method_is_safe(method) {
        return Ok(());
    }
    let name = match user {
        Some(name) => name,
        None => {
            return Ok(());
        },
    };
    let sent = match header_token {
        Some(sent) => sent,
        None => {
            return Err(CsrfError::MissingHeader);
        },
    };
    let stored = match cookie_token {
        Some(stored) => stored,
        None => {
            return Err(CsrfError::MissingCookie);
        },
    };
    if !str_eq(stored, sent) {
        return Err(CsrfError::TokenMismatch);
    }
    validate_csrf_token(sent, name, secret, now)
}

/// Proof that a request passed the anti-forgery check.
pub struct CsrfGuard;

/// The anti-forgery check on a request with the given header fields.
pub open spec fn request_guard_verdict(
    method: Seq<char>,
    user: Option<Seq<char>>,
    fields: Map<Seq<char>, Seq<Seq<u8>>>,
    now: int,
    secret: Seq<u8>,
) -> Result<(), CsrfError> {
    guard_verdict(
        method,
        user,
        first_text(field_values(fields, "x-csrf-token"@)),
        cookie_value(field_values(fields, "cookie"@), "ltcms_csrf"@),
        now,
        secret,
    )
}

/// The user a request is authenticated as, if any.
pub open spec fn subject_of(claims: Option<&Claims>) -> Option<Seq<char>> {
    match claims {
        Some(c) => Some(c.sub@),
        None => None,
    }
}

/// Whether the outcome of a check is what the verdict says.
pub open spec fn guard_agrees(r: Result<CsrfGuard, CsrfError>, verdict: Result<(), CsrfError>) -> bool {
    match r {
        Ok(_) => verdict is Ok,
        Err(e) => verdict == Err::<(), CsrfError>(e),
    }
}

impl CsrfGuard {
    /// Makes the anti-forgery check on a request at time `now`. `claims` is the identity
    /// the request is authenticated as, if any.
    pub fn check_at(
        method: &str,
        claims: Option<&Claims>,
        headers: &HeaderMap,
        secret: &[u8],
        now: i64,
    ) -> (r: Result<CsrfGuard, CsrfError>)
        ensures
            guard_agrees(
                r,
                request_guard_verdict(
                    method@,
                    subject_of(claims),
                    header_fields(*headers),
                    now as int,
                    secret@,
                ),
            ),
    {
        proof {
            reveal_strlit("x-csrf-token");
        }
        let sent = header_text(headers, csrf_header_name());
        let stored = request_cookie(headers, csrf_cookie_name());
        let user: Option<&str> = match claims {
            Some(c) => Some(c.sub.as_str()),
            None => None,
        };
        let sent_text: Option<&str> = match &sent {
            Some(s) => Some(s.as_str()),
            None => None,
        };
        let stored_text: Option<&str> = match &stored {
            Some(s) => Some(s.as_str()),
            None => None,
        };
        match check_csrf_tokens(method, user, sent_text, stored_text, secret, now) {
            Ok(()) => Ok(CsrfGuard),
            Err(e) => Err(e),
        }
    }

    /// Makes the anti-forgery check on a request against the clock. Safe methods and
    /// anonymous requests always pass; whatever the clock says, the outcome is the one
    /// the check gives at some moment the clock can show.
    pub fn check(method: &str, claims: Option<&Claims>, headers: &HeaderMap, secret: &[u8]) -> (r: Result<
        CsrfGuard,
        CsrfError,
    >)
        ensures
            is_safe_method(method@) || claims is None ==> r is Ok,
            exists|now: int|
                0 <= now <= MAX_CLOCK_SECONDS && guard_agrees(
                    r,
                    #[trigger] request_guard_verdict(
                        method@,
                        subject_of(claims),
                        header_fields(*headers),
                        now,
                        secret@,
                    ),
                ),
    {
        let now = current_unix_time();
        let r = CsrfGuard::check_at(method, claims, headers, secret, now);
        assert(guard_agrees(
            r,
            request_guard_verdict(
                method@,
                subject_of(claims),
                header_fields(*headers),
                now as int,
                secret@,
            ),
        ));
        r
    }
}

} // verus!
