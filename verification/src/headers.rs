//! Request and response header fields: reading them, and the defensive response
//! headers set on every answer.

use axum::http::{HeaderMap, HeaderValue};
use axum::http::header::HeaderName;
use axum_extra::extract::cookie::CookieJar;
use vstd::prelude::*;
use vstd::utf8::encode_utf8;

use crate::text::{
    ascii_lower_text, chars_eq, chars_of, chars_start_with, is_ascii_digit, is_ascii_lower,
    lower_chars, starts_with, str_eq, trim, trim_chars,
};

verus! {

#[verifier::external_type_specification]
#[verifier::external_body]
pub struct ExHeaderValue(HeaderValue);

#[verifier::external_type_specification]
#[verifier::external_body]
#[verifier::reject_recursive_types(T)]
pub struct ExHeaderMap<T>(HeaderMap<T>);

/// What a header map holds: under each lower-case field name, the values of that field
/// in the order in which they were added. A name without values is not a key.
pub uninterp spec fn header_fields(headers: HeaderMap) -> Map<Seq<char>, Seq<Seq<u8>>>;

/// How many different field names a header map holds.
pub uninterp spec fn header_name_count(headers: HeaderMap) -> nat;

/// A map that holds fewer field names than this is sure to take one more. The map has a
/// limit of its own, far above this number, and whether it takes a field beyond this
/// number is for the map to say.
pub const MAX_FIELD_NAMES: usize = 1024;

/// The values of one field; none where the field is absent.
pub open spec fn field_values(fields: Map<Seq<char>, Seq<Seq<u8>>>, name: Seq<char>) -> Seq<Seq<u8>> {
    if fields.contains_key(name) {
        fields[name]
    } else {
        Seq::empty()
    }
}

/// A character that may stand in a header value given as text: visible ASCII, space or tab.
pub open spec fn is_visible_char(c: char) -> bool {
    (32 <= (c as u32) && (c as u32) < 127) || (c as u32) == 9
}

/// A text of visible characters only.
pub open spec fn is_visible_text(s: Seq<char>) -> bool {
    forall|i: int| 0 <= i < s.len() ==> is_visible_char(#[trigger] s[i])
}

/// A byte that may stand in a header value read as text.
pub open spec fn is_visible_byte(b: u8) -> bool {
    (32 <= b && b < 127) || b == 9
}

/// A byte that a header value built from text may hold: anything but control bytes.
pub open spec fn is_value_byte(b: u8) -> bool {
    (32 <= b && b != 127) || b == 9
}

/// A text that can be made into a header value.
pub open spec fn is_value_text(s: Seq<char>) -> bool {
    forall|i: int| 0 <= i < encode_utf8(s).len() ==> is_value_byte(#[trigger] encode_utf8(s)[i])
}

/// A text of visible characters can be made into a header value.
pub proof fn lemma_visible_is_value(s: Seq<char>)
    requires
        is_visible_text(s),
    ensures
        is_value_text(s),
{
    assert(vstd::utf8::is_ascii_chars(s)) by {
        assert forall|i: int| 0 <= i < s.len() implies '\0' <= #[trigger] s[i] <= '\u{7f}' by {
            let c = s[i];
            assert(is_visible_char(c));
            let code = c as u32;
            vstd::utf8::char_u32_cast(c, code);
        }
    }
    vstd::utf8::is_ascii_chars_encode_utf8(s);
    assert forall|i: int| 0 <= i < encode_utf8(s).len() implies is_value_byte(
        #[trigger] encode_utf8(s)[i],
    ) by {
        assert(is_visible_char(s[i]));
        assert(encode_utf8(s)[i] == s[i] as u8);
    }
}

/// Two texts of visible characters, one after the other, are a text of visible
/// characters.
pub proof fn lemma_visible_concat(a: Seq<char>, b: Seq<char>)
    requires
        is_visible_text(a),
        is_visible_text(b),
    ensures
        is_visible_text(a + b),
{
    assert forall|i: int| 0 <= i < (a + b).len() implies is_visible_char(#[trigger] (a + b)[i]) by {
        if i < a.len() {
            assert((a + b)[i] == a[i]);
        } else {
            assert((a + b)[i] == b[i - a.len()]);
        }
    }
}

/// A field name as this library writes them: lower-case letters, digits and hyphens,
/// at least one and at most sixty-four.
pub open spec fn is_field_name(s: Seq<char>) -> bool {
    &&& 0 < s.len() <= 64
    &&& forall|i: int| 0 <= i < s.len() ==> is_ascii_lower(#[trigger] s[i]) || is_ascii_digit(s[i])
            || s[i] == '-'
}

/// The first value of a field as text, where there is one and all its bytes are visible.
pub open spec fn first_text(values: Seq<Seq<u8>>) -> Option<Seq<char>> {
    if values.len() > 0 && (forall|i: int| 0 <= i < values[0].len() ==> is_visible_byte(#[trigger] values[0][i])) {
        Some(values[0].map_values(|b: u8| b as char))
    } else {
        None
    }
}

/// Trusted: `HeaderMap::get` and `HeaderValue::to_str` of `http`. The first value of the
/// field is returned as text if the field is present and that value holds visible ASCII
/// only.
#[verifier::external_body]
pub(crate) fn header_text(headers: &HeaderMap, name: &str) -> (r: Option<String>)
    requires
        is_field_name(name@),
    ensures
        match r {
            Some(text) => first_text(field_values(header_fields(*headers), name@)) == Some(text@),
            None => first_text(field_values(header_fields(*headers), name@)) is None,
        },
{
    headers.get(name).and_then(|value| value.to_str().ok()).map(|text| text.to_owned())
}

/// No fields at all.
pub open spec fn no_fields() -> Map<Seq<char>, Seq<Seq<u8>>> {
    Map::empty()
}

/// Trusted: `HeaderMap::new` of `http`. A new map holds no field.
#[verifier::external_body]
pub(crate) fn empty_headers() -> (fresh: HeaderMap)
    ensures
        header_fields(fresh) == no_fields(),
        header_name_count(fresh) == 0,
{
    HeaderMap::new()
}

/// Trusted: `HeaderMap::try_insert` with `HeaderName::from_static` and
/// `HeaderValue::from_static` of `http`. Where the map takes the field, the field then
/// has this one value, whatever it had before, and other fields are untouched; where
/// the map has reached its limit, nothing changes. A map with fewer than
/// `MAX_FIELD_NAMES` names always takes it. The two `from_static` calls panic on a name
/// that is not lower-case and on a value with bytes that are not visible; `requires`
/// leaves both out.
#[verifier::external_body]
pub(crate) fn set_header(headers: &mut HeaderMap, name: &'static str, value: &'static str) -> (taken: bool)
    requires
        is_field_name(name@),
        is_visible_text(value@),
    ensures
        taken ==> header_fields(*final(headers)) == header_fields(*old(headers)).insert(
            name@,
            seq![encode_utf8(value@)],
        ),
        !taken ==> header_fields(*final(headers)) == header_fields(*old(headers)),
        header_name_count(*old(headers)) < MAX_FIELD_NAMES ==> taken,
        header_name_count(*final(headers)) <= header_name_count(*old(headers)) + 1,
{
    headers.try_insert(HeaderName::from_static(name), HeaderValue::from_static(value)).is_ok()
}

/// Trusted: `HeaderMap::remove` of `http`. All values of the field are dropped; other
/// fields are untouched.
#[verifier::external_body]
pub(crate) fn remove_header(headers: &mut HeaderMap, name: &'static str)
    requires
        is_field_name(name@),
    ensures
        header_fields(*final(headers)) == header_fields(*old(headers)).remove(name@),
        header_name_count(*final(headers)) <= header_name_count(*old(headers)),
{
    headers.remove(name);
}

/// Trusted: `HeaderValue::from_str` and `HeaderMap::try_append` of `http`. A text free
/// of control bytes is added behind the values the field already has, and `true` comes
/// back, unless the map has reached its limit; any other text is refused. Where `false`
/// comes back nothing has changed. A map with fewer than `MAX_FIELD_NAMES` names always
/// takes a text free of control bytes.
#[verifier::external_body]
pub(crate) fn append_header(headers: &mut HeaderMap, name: &'static str, value: &str) -> (added: bool)
    requires
        is_field_name(name@),
    ensures
        added ==> is_value_text(value@),
        added ==> header_fields(*final(headers)) == header_fields(*old(headers)).insert(
            name@,
            field_values(header_fields(*old(headers)), name@).push(encode_utf8(value@)),
        ),
        !added ==> header_fields(*final(headers)) == header_fields(*old(headers)),
        header_name_count(*old(headers)) < MAX_FIELD_NAMES && is_value_text(value@) ==> added,
        header_name_count(*final(headers)) <= header_name_count(*old(headers)) + 1,
{
    match HeaderValue::from_str(value) {
        Ok(accepted) => headers.try_append(HeaderName::from_static(name), accepted).is_ok(),
        Err(_) => false,
    }
}

/// The value of the named cookie among the `Cookie` fields of a request, if there is one.
pub uninterp spec fn cookie_value(cookie_fields: Seq<Seq<u8>>, name: Seq<char>) -> Option<Seq<char>>;

/// Trusted: `CookieJar::from_headers` and `CookieJar::get` of `axum_extra`. What is found
/// depends on the values of the `Cookie` fields and on the name alone.
#[verifier::external_body]
pub(crate) fn request_cookie(headers: &HeaderMap, name: &str) -> (r: Option<String>)
    ensures
        match r {
            Some(value) => cookie_value(field_values(header_fields(*headers), "cookie"@), name@) == Some(
                value@,
            ),
            None => cookie_value(field_values(header_fields(*headers), "cookie"@), name@) is None,
        },
{
    CookieJar::from_headers(headers).get(name).map(|cookie| cookie.value().to_owned())
}

/// Reads a yes-or-no setting. `1`, `true`, `yes` and `on` mean yes; `0`, `false`, `no`
/// and `off` mean no; upper case and surrounding whitespace do not matter. A missing
/// or any other value gives the default.
pub open spec fn bool_flag(value: Option<Seq<char>>, default: bool) -> bool {
    match value {
        None => default,
        Some(raw) => {
            let word = ascii_lower_text(trim(raw));
            if word == "1"@ || word == "true"@ || word == "yes"@ || word == "on"@ {
                true
            } else if word == "0"@ || word == "false"@ || word == "no"@ || word == "off"@ {
                false
            } else {
                default
            }
        },
    }
}

fn is_word(word: &Vec<char>, literal: &str) -> (r: bool)
    ensures
        r == (word@ == literal@),
{
    let other = chars_of(literal);
    chars_eq(word.as_slice(), other.as_slice())
}

/// Reads a yes-or-no setting from its configured text.
pub fn parse_env_bool(value: Option<&str>, default: bool) -> (flag: bool)
    ensures
        flag == bool_flag(crate::text::text_of(value), default),
{
    match value {
        None => default,
        Some(raw) => {
            let chars = chars_of(raw);
            let trimmed = trim_chars(chars.as_slice());
            let word = lower_chars(trimmed.as_slice());
            if is_word(&word, "1") || is_word(&word, "true") || is_word(&word, "yes") || is_word(
                &word,
                "on",
            ) {
                true
            } else if is_word(&word, "0") || is_word(&word, "false") || is_word(&word, "no")
                || is_word(&word, "off") {
                false
            } else {
                default
            }
        },
    }
}

/// The five fields by which a client could pass itself off as another address.
pub open spec fn without_forwarding(fields: Map<Seq<char>, Seq<Seq<u8>>>) -> Map<
    Seq<char>,
    Seq<Seq<u8>>,
> {
    fields.remove("forwarded"@).remove("x-forwarded-for"@).remove("x-forwarded-proto"@).remove(
        "x-forwarded-host"@,
    ).remove("x-real-ip"@)
}

/// Removes `Forwarded`, `X-Forwarded-For`, `X-Forwarded-Proto`, `X-Forwarded-Host` and
/// `X-Real-Ip` from a request, so that nothing behind this point trusts an address the
/// client wrote itself. Every other field stays as it is.
pub fn strip_untrusted_forwarded_headers(headers: &mut HeaderMap)
    ensures
        header_fields(*final(headers)) == without_forwarding(header_fields(*old(headers))),
        header_name_count(*final(headers)) <= header_name_count(*old(headers)),
{
    proof {
        reveal_strlit("forwarded");
        reveal_strlit("x-forwarded-for");
        reveal_strlit("x-forwarded-proto");
        reveal_strlit("x-forwarded-host");
        reveal_strlit("x-real-ip");
    }
    remove_header(headers, "forwarded");
    remove_header(headers, "x-forwarded-for");
    remove_header(headers, "x-forwarded-proto");
    remove_header(headers, "x-forwarded-host");
    remove_header(headers, "x-real-ip");
}

/// After stripping, none of the five forwarding fields is left, whatever the request held.
pub proof fn lemma_stripped_has_no_forwarding(fields: Map<Seq<char>, Seq<Seq<u8>>>)
    ensures
        !without_forwarding(fields).contains_key("forwarded"@),
        !without_forwarding(fields).contains_key("x-forwarded-for"@),
        !without_forwarding(fields).contains_key("x-forwarded-proto"@),
        !without_forwarding(fields).contains_key("x-forwarded-host"@),
        !without_forwarding(fields).contains_key("x-real-ip"@),
        forall|name: Seq<char>|
            name != "forwarded"@ && name != "x-forwarded-for"@ && name != "x-forwarded-proto"@ && name
                != "x-forwarded-host"@ && name != "x-real-ip"@ ==> (#[trigger] without_forwarding(
                fields,
            ).contains_key(name) == fields.contains_key(name) && (fields.contains_key(name)
                ==> without_forwarding(fields)[name] == fields[name])),
{
}

/// Whether the request came in over HTTPS, as the trusted proxy in front reports it:
/// the first `X-Forwarded-Proto` value is exactly `https`.
pub open spec fn arrived_over_https(fields: Map<Seq<char>, Seq<Seq<u8>>>) -> bool {
    first_text(field_values(fields, "x-forwarded-proto"@)) == Some("https"@)
}

/// Whether the request came in over HTTPS, as the trusted proxy in front reports it.
pub fn request_is_https(headers: &HeaderMap) -> (https: bool)
    ensures
        https == arrived_over_https(header_fields(*headers)),
{
    proof {
        reveal_strlit("x-forwarded-proto");
    }
    match header_text(headers, "x-forwarded-proto") {
        Some(value) => str_eq(value.as_str(), "https"),
        None => false,
    }
}

/// Whether an answer may be cached by anyone: a `GET` of the tutorial list, of one
/// tutorial, or of anything under `/api/public/`.
pub open spec fn is_cacheable(method: Seq<char>, path: Seq<char>) -> bool {
    &&& method == "GET"@
    &&& (path == "/api/tutorials"@ || starts_with(path, "/api/tutorials/"@) || starts_with(
        path,
        "/api/public/"@,
    ))
}

/// Whether an answer to this request may be cached by anyone.
pub fn response_is_cacheable(method: &str, path: &str) -> (cacheable: bool)
    ensures
        cacheable == is_cacheable(method@, path@),
{
    if !str_eq(method, "GET") {
        return false;
    }
    let chars = chars_of(path);
    let list = chars_of("/api/tutorials");
    let item = chars_of("/api/tutorials/");
    let public = chars_of("/api/public/");
    chars_eq(chars.as_slice(), list.as_slice()) || chars_start_with(chars.as_slice(), item.as_slice())
        || chars_start_with(chars.as_slice(), public.as_slice())
}

/// The content security policy. A development build also allows websocket connections,
/// which hot reloading needs.
pub open spec fn csp_text(development: bool) -> Seq<char> {
    if development {
        "default-src 'self'; script-src 'self'; style-src 'self' 'unsafe-inline' https://fonts.googleapis.com; font-src 'self' https://fonts.gstatic.com data:; img-src 'self' data: blob:; connect-src 'self' ws: wss:; object-src 'none'; base-uri 'self'; form-action 'self'; frame-ancestors 'none'; upgrade-insecure-requests;"@
    } else {
        "default-src 'self'; script-src 'self'; style-src 'self' 'unsafe-inline' https://fonts.googleapis.com; font-src 'self' https://fonts.gstatic.com data:; img-src 'self' data: blob:; connect-src 'self'; object-src 'none'; base-uri 'self'; form-action 'self'; frame-ancestors 'none'; upgrade-insecure-requests;"@
    }
}

/// The fields with one of them set to a single text value.
pub open spec fn with_field(fields: Map<Seq<char>, Seq<Seq<u8>>>, name: Seq<char>, value: Seq<char>) -> Map<
    Seq<char>,
    Seq<Seq<u8>>,
> {
    fields.insert(name, seq![encode_utf8(value)])
}

/// The caching fields of an answer: a short public lifetime where caching is allowed,
/// and no storing at all anywhere else.
pub open spec fn with_cache_policy(fields: Map<Seq<char>, Seq<Seq<u8>>>, cacheable: bool) -> Map<
    Seq<char>,
    Seq<Seq<u8>>,
> {
    if cacheable {
        with_field(fields, "cache-control"@, "public, max-age=300, stale-while-revalidate=60"@).remove(
            "pragma"@,
        ).remove("expires"@)
    } else {
        with_field(
            with_field(
                with_field(fields, "cache-control"@, "no-store, no-cache, must-revalidate"@),
                "pragma"@,
                "no-cache"@,
            ),
            "expires"@,
            "0"@,
        )
    }
}

/// The transport security field, set only on an answer to a request that came over HTTPS.
pub open spec fn with_transport_security(fields: Map<Seq<char>, Seq<Seq<u8>>>, https: bool) -> Map<
    Seq<char>,
    Seq<Seq<u8>>,
> {
    if https {
        with_field(fields, "strict-transport-security"@, "max-age=31536000; includeSubDomains; preload"@)
    } else {
        fields
    }
}

/// The fields of an answer once every defensive header is in place.
pub open spec fn secured_fields(
    fields: Map<Seq<char>, Seq<Seq<u8>>>,
    cacheable: bool,
    https: bool,
    development: bool,
) -> Map<Seq<char>, Seq<Seq<u8>>> {
    let cached = with_cache_policy(fields, cacheable);
    let policed = with_field(cached, "content-security-policy"@, csp_text(development));
    let transported = with_transport_security(policed, https);
    with_field(
        with_field(
            with_field(
                with_field(
                    with_field(transported, "x-content-type-options"@, "nosniff"@),
                    "x-frame-options"@,
                    "DENY"@,
                ),
                "referrer-policy"@,
                "no-referrer"@,
            ),
            "permissions-policy"@,
            "geolocation=(), microphone=(), camera=()"@,
        ),
        "x-xss-protection"@,
        "0"@,
    )
}

/// Every answer carries the fixed defensive fields and the content security policy,
/// whatever it carried before; an answer that may not be cached says so in all three
/// caching fields; and transport security is set on answers to HTTPS requests and left
/// as it was on all others.
pub proof fn lemma_secured_fields(
    fields: Map<Seq<char>, Seq<Seq<u8>>>,
    cacheable: bool,
    https: bool,
    development: bool,
)
    ensures
        ({
            let secured = secured_fields(fields, cacheable, https, development);
            &&& field_values(secured, "x-content-type-options"@) == seq![encode_utf8("nosniff"@)]
            &&& field_values(secured, "x-frame-options"@) == seq![encode_utf8("DENY"@)]
            &&& field_values(secured, "referrer-policy"@) == seq![encode_utf8("no-referrer"@)]
            &&& field_values(secured, "permissions-policy"@) == seq![
                encode_utf8("geolocation=(), microphone=(), camera=()"@),
            ]
            &&& field_values(secured, "x-xss-protection"@) == seq![encode_utf8("0"@)]
            &&& field_values(secured, "content-security-policy"@) == seq![
                encode_utf8(csp_text(development)),
            ]
            &&& !cacheable ==> {
                &&& field_values(secured, "cache-control"@) == seq![
                    encode_utf8("no-store, no-cache, must-revalidate"@),
                ]
                &&& field_values(secured, "pragma"@) == seq![encode_utf8("no-cache"@)]
                &&& field_values(secured, "expires"@) == seq![encode_utf8("0"@)]
            }
            &&& cacheable ==> {
                &&& field_values(secured, "cache-control"@) == seq![
                    encode_utf8("public, max-age=300, stale-while-revalidate=60"@),
                ]
                &&& !secured.contains_key("pragma"@)
                &&& !secured.contains_key("expires"@)
            }
            &&& https ==> field_values(secured, "strict-transport-security"@) == seq![
                encode_utf8("max-age=31536000; includeSubDomains; preload"@),
            ]
            &&& !https ==> field_values(secured, "strict-transport-security"@) == field_values(
                fields,
                "strict-transport-security"@,
            )
        }),
{
    reveal_strlit("cache-control");
    reveal_strlit("pragma");
    reveal_strlit("expires");
    reveal_strlit("content-security-policy");
    reveal_strlit("strict-transport-security");
    reveal_strlit("x-content-type-options");
    reveal_strlit("x-frame-options");
    reveal_strlit("referrer-policy");
    reveal_strlit("permissions-policy");
    reveal_strlit("x-xss-protection");
    assert("cache-control"@.len() == 13);
    assert("pragma"@.len() == 6);
    assert("expires"@.len() == 7);
    assert("content-security-policy"@.len() == 23);
    assert("strict-transport-security"@.len() == 25);
    assert("x-content-type-options"@.len() == 22);
    assert("x-frame-options"@.len() == 15);
    assert("referrer-policy"@.len() == 15);
    assert("permissions-policy"@.len() == 18);
    assert("x-xss-protection"@.len() == 16);
    assert("x-frame-options"@[0] == 'x');
    assert("referrer-policy"@[0] == 'r');
}

/// How many fields the defensive headers may add to an answer.
pub const SECURITY_FIELD_COUNT: usize = 10;

/// The fields of an answer after the first `steps` of the ten steps in which the
/// defensive headers are set: the three caching fields, the content security policy,
/// transport security, and the five fixed fields.
pub open spec fn secured_upto(
    fields: Map<Seq<char>, Seq<Seq<u8>>>,
    cacheable: bool,
    https: bool,
    development: bool,
    steps: int,
) -> Map<Seq<char>, Seq<Seq<u8>>> {
    let s1 = if steps >= 1 {
        with_field(
            fields,
            "cache-control"@,
            if cacheable {
                "public, max-age=300, stale-while-revalidate=60"@
            } else {
                "no-store, no-cache, must-revalidate"@
            },
        )
    } else {
        fields
    };
    let s2 = if steps >= 2 {
        if cacheable {
            s1.remove("pragma"@)
        } else {
            with_field(s1, "pragma"@, "no-cache"@)
        }
    } else {
        s1
    };
    let s3 = if steps >= 3 {
        if cacheable {
            s2.remove("expires"@)
        } else {
            with_field(s2, "expires"@, "0"@)
        }
    } else {
        s2
    };
    let s4 = if steps >= 4 {
        with_field(s3, "content-security-policy"@, csp_text(development))
    } else {
        s3
    };
    let s5 = if steps >= 5 {
        with_transport_security(s4, https)
    } else {
        s4
    };
    let s6 = if steps >= 6 {
        with_field(s5, "x-content-type-options"@, "nosniff"@)
    } else {
        s5
    };
    let s7 = if steps >= 7 {
        with_field(s6, "x-frame-options"@, "DENY"@)
    } else {
        s6
    };
    let s8 = if steps >= 8 {
        with_field(s7, "referrer-policy"@, "no-referrer"@)
    } else {
        s7
    };
    let s9 = if steps >= 9 {
        with_field(s8, "permissions-policy"@, "geolocation=(), microphone=(), camera=()"@)
    } else {
        s8
    };
    if steps >= 10 {
        with_field(s9, "x-xss-protection"@, "0"@)
    } else {
        s9
    }
}

/// All ten steps give the fully secured fields.
pub proof fn lemma_all_steps_secure(
    fields: Map<Seq<char>, Seq<Seq<u8>>>,
    cacheable: bool,
    https: bool,
    development: bool,
)
    ensures
        secured_upto(fields, cacheable, https, development, SECURITY_FIELD_COUNT as int) == secured_fields(
            fields,
            cacheable,
            https,
            development,
        ),
{
}

/// Sets the defensive headers on an answer, one after the other: the caching policy
/// that fits the request, the content security policy, transport security where the
/// request came over HTTPS, and the fixed fields against sniffing, framing, referrer
/// leaks and unused browser features. Fields that are not named here stay as they are.
///
/// An answer takes all of them unless the map that holds its fields has reached its
/// own limit; then the headers set so far stay, the rest is left out, and `false`
/// comes back. An answer with room for ten more field names below `MAX_FIELD_NAMES`
/// always takes all of them.
pub fn security_headers(
    headers: &mut HeaderMap,
    method: &str,
    path: &str,
    https: bool,
    development: bool,
) -> (applied: bool)
    ensures
        applied ==> header_fields(*final(headers)) == secured_fields(
            header_fields(*old(headers)),
            is_cacheable(method@, path@),
            https,
            development,
        ),
        header_name_count(*old(headers)) + SECURITY_FIELD_COUNT <= MAX_FIELD_NAMES ==> applied,
        exists|steps: int|
            0 <= steps <= SECURITY_FIELD_COUNT && applied == (steps == SECURITY_FIELD_COUNT)
                && header_fields(*final(headers)) == #[trigger] secured_upto(
                header_fields(*old(headers)),
                is_cacheable(method@, path@),
                https,
                development,
                steps,
            ),
{
    let cacheable = response_is_cacheable(method, path);
    let ghost before = header_fields(*headers);
    let ghost names = header_name_count(*headers);
    proof {
        lemma_all_steps_secure(before, cacheable, https, development);
        reveal_strlit("cache-control");
        reveal_strlit("pragma");
        reveal_strlit("expires");
        reveal_strlit("public, max-age=300, stale-while-revalidate=60");
        reveal_strlit("no-store, no-cache, must-revalidate");
        reveal_strlit("no-cache");
        reveal_strlit("0");
        reveal_strlit("content-security-policy");
        reveal_strlit("default-src 'self'; script-src 'self'; style-src 'self' 'unsafe-inline' https://fonts.googleapis.com; font-src 'self' https://fonts.gstatic.com data:; img-src 'self' data: blob:; connect-src 'self' ws: wss:; object-src 'none'; base-uri 'self'; form-action 'self'; frame-ancestors 'none'; upgrade-insecure-requests;");
        reveal_strlit("default-src 'self'; script-src 'self'; style-src 'self' 'unsafe-inline' https://fonts.googleapis.com; font-src 'self' https://fonts.gstatic.com data:; img-src 'self' data: blob:; connect-src 'self'; object-src 'none'; base-uri 'self'; form-action 'self'; frame-ancestors 'none'; upgrade-insecure-requests;");
        reveal_strlit("strict-transport-security");
        reveal_strlit("max-age=31536000; includeSubDomains; preload");
        reveal_strlit("x-content-type-options");
        reveal_strlit("nosniff");
        reveal_strlit("x-frame-options");
        reveal_strlit("DENY");
        reveal_strlit("referrer-policy");
        reveal_strlit("no-referrer");
        reveal_strlit("permissions-policy");
        reveal_strlit("geolocation=(), microphone=(), camera=()");
        reveal_strlit("x-xss-protection");
    }
    let taken = if cacheable {
        set_header(headers, "cache-control", "public, max-age=300, stale-while-revalidate=60")
    } else {
        set_header(headers, "cache-control", "no-store, no-cache, must-revalidate")
    };
    if !taken {
        assert(header_fields(*headers) == secured_upto(before, cacheable, https, development, 0));
        return false;
    }
    assert(header_fields(*headers) == secured_upto(before, cacheable, https, development, 1));
    if cacheable {
        remove_header(headers, "pragma");
        remove_header(headers, "expires");
    } else {
        if !set_header(headers, "pragma", "no-cache") {
            return false;
        }
        assert(header_fields(*headers) == secured_upto(before, cacheable, https, development, 2));
        if !set_header(headers, "expires", "0") {
            return false;
        }
    }
    assert(header_fields(*headers) == secured_upto(before, cacheable, https, development, 3));
    let policed = if development {
        set_header(headers, "content-security-policy", "default-src 'self'; script-src 'self'; style-src 'self' 'unsafe-inline' https://fonts.googleapis.com; font-src 'self' https://fonts.gstatic.com data:; img-src 'self' data: blob:; connect-src 'self' ws: wss:; object-src 'none'; base-uri 'self'; form-action 'self'; frame-ancestors 'none'; upgrade-insecure-requests;")
    } else {
        set_header(headers, "content-security-policy", "default-src 'self'; script-src 'self'; style-src 'self' 'unsafe-inline' https://fonts.googleapis.com; font-src 'self' https://fonts.gstatic.com data:; img-src 'self' data: blob:; connect-src 'self'; object-src 'none'; base-uri 'self'; form-action 'self'; frame-ancestors 'none'; upgrade-insecure-requests;")
    };
    if !policed {
        return false;
    }
    assert(header_fields(*headers) == secured_upto(before, cacheable, https, development, 4));
    if https {
        if !set_header(headers, "strict-transport-security", "max-age=31536000; includeSubDomains; preload") {
            return false;
        }
    }
    assert(header_fields(*headers) == secured_upto(before, cacheable, https, development, 5));
    if !set_header(headers, "x-content-type-options", "nosniff") {
        return false;
    }
    assert(header_fields(*headers) == secured_upto(before, cacheable, https, development, 6));
    if !set_header(headers, "x-frame-options", "DENY") {
        return false;
    }
    assert(header_fields(*headers) == secured_upto(before, cacheable, https, development, 7));
    if !set_header(headers, "referrer-policy", "no-referrer") {
        return false;
    }
    assert(header_fields(*headers) == secured_upto(before, cacheable, https, development, 8));
    if !set_header(headers, "permissions-policy", "geolocation=(), microphone=(), camera=()") {
        return false;
    }
    assert(header_fields(*headers) == secured_upto(before, cacheable, https, development, 9));
    if !set_header(headers, "x-xss-protection", "0") {
        return false;
    }
    assert(header_fields(*headers) == secured_upto(before, cacheable, https, development, 10));
    true
}

} // verus!
