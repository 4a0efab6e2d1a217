//! Which origins may call the service from a browser.

use vstd::prelude::*;

use crate::headers::{is_value_byte, is_value_text};
use crate::text::{chars_of, chars_start_with, starts_with, string_of, trim, trim_chars};

verus! {

/// Whether a text is an absolute URL.
pub uninterp spec fn is_absolute_url(text: Seq<char>) -> bool;

/// Trusted: `url::Url::parse`. Whether it accepts a text depends on the text alone.
#[verifier::external_body]
pub(crate) fn url_parses(text: &str) -> (ok: bool)
    ensures
        ok == is_absolute_url(text@),
{
    url::Url::parse(text).is_ok()
}

/// Whether a text can be made into a header value: it holds no control bytes.
pub fn text_is_value(text: &str) -> (ok: bool)
    ensures
        ok == is_value_text(text@),
{
    let bytes = text.as_bytes();
    let mut i: usize = 0;
    while i < bytes.len()
        invariant
            i <= bytes.len(),
            bytes@ == vstd::utf8::encode_utf8(text@),
            forall|k: int| 0 <= k < i ==> is_value_byte(#[trigger] bytes@[k]),
        decreases bytes.len() - i,
    {
        let b: u8 = bytes[i];
        if !((32 <= b && b != 127) || b == 9) {
            return false;
        }
        i += 1;
    }
    true
}

/// Whether a trimmed origin is let in, given whether it is an absolute URL: it is not
/// empty, begins with `http://` or `https://`, is an absolute URL and can be a header
/// value.
pub open spec fn origin_allowed(origin: Seq<char>, absolute: bool) -> bool {
    &&& origin.len() > 0
    &&& (starts_with(origin, "http://"@) || starts_with(origin, "https://"@))
    &&& absolute
    &&& is_value_text(origin)
}

/// The origins that are let in, trimmed, in the order in which they were given.
pub open spec fn allowed_origins(origins: Seq<Seq<char>>) -> Seq<Seq<char>>
    decreases origins.len(),
{
    if origins.len() == 0 {
        Seq::empty()
    } else {
        let before = allowed_origins(origins.drop_last());
        let origin = trim(origins.last());
        if origin_allowed(origin, is_absolute_url(origin)) {
            before.push(origin)
        } else {
            before
        }
    }
}

/// Decides on one trimmed origin, given whether it is an absolute URL.
pub fn origin_is_allowed(origin: &str, absolute: bool) -> (ok: bool)
    ensures
        ok == origin_allowed(origin@, absolute),
{
    let chars = chars_of(origin);
    if chars.len() == 0 {
        return false;
    }
    let plain = chars_of("http://");
    let secure = chars_of("https://");
    if !chars_start_with(chars.as_slice(), plain.as_slice()) && !chars_start_with(
        chars.as_slice(),
        secure.as_slice(),
    ) {
        return false;
    }
    absolute && text_is_value(origin)
}

/// Picks the origins that may call the service out of the configured ones. Anything
/// that is empty, not a web address, or not fit for a header is left out.
pub fn parse_allowed_origins(origins: &Vec<String>) -> (allowed: Vec<String>)
    ensures
        allowed@.map_values(|s: String| s@) == allowed_origins(origins@.map_values(|s: String| s@)),
{
    let mut allowed: Vec<String> = Vec::new();
    let mut i: usize = 0;
    while i < origins.len()
        invariant
            i <= origins.len(),
            allowed@.map_values(|s: String| s@) == allowed_origins(
                origins@.map_values(|s: String| s@).take(i as int),
            ),
        decreases origins.len() - i,
    {
        let chars = chars_of(origins[i].as_str());
        let trimmed = string_of(trim_chars(chars.as_slice()).as_slice());
        let ghost views = origins@.map_values(|s: String| s@);
        let ghost before = allowed@.map_values(|s: String| s@);
        proof {
            assert(views.take(i + 1).drop_last() =~= views.take(i as int));
            assert(views.take(i + 1).last() == origins@[i as int]@);
        }
        let absolute = url_parses(trimmed.as_str());
        if origin_is_allowed(trimmed.as_str(), absolute) {
            allowed.push(trimmed);
            assert(allowed@.map_values(|s: String| s@) =~= before.push(trimmed@));
        }
        i += 1;
    }
    assert(origins@.map_values(|s: String| s@).take(origins.len() as int) =~= origins@.map_values(
        |s: String| s@,
    ));
    allowed
}

/// The origins let in when none are configured: the local development servers.
pub fn default_frontend_origins() -> (origins: Vec<String>)
    ensures
        origins@.len() == 2,
        origins@[0]@ == "http://localhost:5173"@,
        origins@[1]@ == "http://localhost:3000"@,
{
    let mut origins: Vec<String> = Vec::new();
    origins.push("http://localhost:5173".to_owned());
    origins.push("http://localhost:3000".to_owned());
    origins
}

} // verus!
