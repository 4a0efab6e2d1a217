//! Helpers shared by the checks on content.

use vstd::prelude::*;
use vstd::utf8::encode_utf8;

use crate::content::errors::ContentError;
use crate::text::{char_is_whitespace, chars_of, is_whitespace, string_of, trim, trim_chars};

verus! {

/// The byte length of a text in UTF-8.
pub open spec fn byte_len(s: Seq<char>) -> nat {
    encode_utf8(s).len()
}

pub(crate) fn utf8_len(chars: &[char]) -> (n: usize)
    ensures
        n == byte_len(chars@),
{
    let text = string_of(chars);
    text.as_str().as_bytes().len()
}

pub(crate) fn check_text(text: &str, most: usize, empty: ContentError, long: ContentError) -> (r: Result<
    (),
    ContentError,
>)
    ensures
        r == (if trim(text@).len() == 0 {
            Err::<(), ContentError>(empty)
        } else if byte_len(trim(text@)) > most {
            Err::<(), ContentError>(long)
        } else {
            Ok::<(), ContentError>(())
        }),
{
    let chars = chars_of(text);
    let trimmed = trim_chars(chars.as_slice());
    if trimmed.len() == 0 {
        return Err(empty);
    }
    if utf8_len(trimmed.as_slice()) > most {
        return Err(long);
    }
    Ok(())
}

/// The words found so far in a text read from the left, and the word still being read.
pub open spec fn word_scan(s: Seq<char>) -> (Seq<Seq<char>>, Seq<char>)
    decreases s.len(),
{
    if s.len() == 0 {
        (Seq::empty(), Seq::empty())
    } else {
        let (done, current) = word_scan(s.drop_last());
        let c = s.last();
        if is_whitespace(c) {
            if current.len() > 0 {
                (done.push(current), Seq::empty())
            } else {
                (done, current)
            }
        } else {
            (done, current.push(c))
        }
    }
}

/// The words of a text: its runs of characters that are not whitespace.
pub open spec fn words(s: Seq<char>) -> Seq<Seq<char>> {
    let (done, current) = word_scan(s);
    if current.len() > 0 {
        done.push(current)
    } else {
        done
    }
}

/// Splits a text into its words.
pub fn split_words(chars: &[char]) -> (out: Vec<Vec<char>>)
    ensures
        out@.map_values(|w: Vec<char>| w@) == words(chars@),
{
    let mut done: Vec<Vec<char>> = Vec::new();
    let mut current: Vec<char> = Vec::new();
    let mut i: usize = 0;
    while i < chars.len()
        invariant
            i <= chars.len(),
            (done@.map_values(|w: Vec<char>| w@), current@) == word_scan(chars@.take(i as int)),
        decreases chars.len() - i,
    {
        let c = chars[i];
        let ghost views = done@.map_values(|w: Vec<char>| w@);
        let ghost partial = current@;
        proof {
            assert(chars@.take(i + 1).drop_last() =~= chars@.take(i as int));
            assert(chars@.take(i + 1).last() == c);
        }
        if char_is_whitespace(c) {
            if current.len() > 0 {
                done.push(current);
                current = Vec::new();
                assert(done@.map_values(|w: Vec<char>| w@) =~= views.push(partial));
            }
        } else {
            current.push(c);
        }
        i += 1;
    }
    assert(chars@.take(chars.len() as int) =~= chars@);
    if current.len() > 0 {
        let ghost views = done@.map_values(|w: Vec<char>| w@);
        let ghost partial = current@;
        done.push(current);
        assert(done@.map_values(|w: Vec<char>| w@) =~= views.push(partial));
    }
    done
}

/// The text behind an optional string.
pub open spec fn opt_text(value: Option<String>) -> Option<Seq<char>> {
    match value {
        Some(text) => Some(text@),
        None => None,
    }
}

/// An optional text, trimmed where there is one.
pub open spec fn opt_trimmed(value: Option<Seq<char>>) -> Option<Seq<char>> {
    match value {
        Some(text) => Some(trim(text)),
        None => None,
    }
}

pub(crate) fn trimmed_text(text: &str) -> (r: String)
    ensures
        r@ == trim(text@),
{
    let chars = chars_of(text);
    string_of(trim_chars(chars.as_slice()).as_slice())
}

/// The views of a list of strings.
pub open spec fn texts_of(list: Vec<String>) -> Seq<Seq<char>> {
    list@.map_values(|s: String| s@)
}

/// The views of an optional list of strings.
pub open spec fn opt_texts(list: Option<Vec<String>>) -> Option<Seq<Seq<char>>> {
    match list {
        Some(items) => Some(texts_of(items)),
        None => None,
    }
}

} // verus!
