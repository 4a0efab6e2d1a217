//! Search requests: the full-text query, the topic filter and the page size.

use vstd::prelude::*;
use vstd::utf8::encode_utf8;

use crate::content::errors::ContentError;
use crate::text::{
    char_is_ascii_alnum, char_is_whitespace, chars_of, is_ascii_alnum, is_whitespace, string_of,
    trim, trim_chars,
};

verus! {

/// How many search results are returned when the client does not say.
pub fn default_limit() -> (limit: i64)
    ensures
        limit == 20,
{
    20
}

/// A page size brought into the range from one to `most`.
pub fn clamp_limit(limit: i64, most: i64) -> (r: i64)
    requires
        most >= 1,
    ensures
        r == (if limit < 1 {
            1
        } else if limit > most {
            most
        } else {
            limit
        }),
{
    if limit < 1 {
        1
    } else if limit > most {
        most
    } else {
        limit
    }
}

/// A page offset with negative values taken as zero.
pub fn clamp_offset(offset: i64) -> (r: i64)
    ensures
        r == (if offset < 0 {
            0
        } else {
            offset
        }),
{
    if offset < 0 {
        0
    } else {
        offset
    }
}

/// A character that may stand in a search term.
pub open spec fn is_search_char(c: char) -> bool {
    is_ascii_alnum(c) || c == '*' || c == '-' || c == '_' || c == '.' || c == '+' || c == '#' || c
        == '@' || c == '/' || c == ':' || c == '(' || c == ')' || c == '[' || c == ']'
}

/// The search terms found so far in a text read from the left, and the term still being
/// read. Whitespace ends a term; any other character that may not stand in a term is
/// passed over; a term left empty is dropped.
pub open spec fn search_scan(s: Seq<char>) -> (Seq<Seq<char>>, Seq<char>)
    decreases s.len(),
{
    if s.len() == 0 {
        (Seq::empty(), Seq::empty())
    } else {
        let (done, current) = search_scan(s.drop_last());
        let c = s.last();
        if is_whitespace(c) {
            if current.len() > 0 {
                (done.push(current), Seq::empty())
            } else {
                (done, current)
            }
        } else if is_search_char(c) {
            (done, current.push(c))
        } else {
            (done, current)
        }
    }
}

/// The search terms of a text.
pub open spec fn search_terms(s: Seq<char>) -> Seq<Seq<char>> {
    let (done, current) = search_scan(s);
    if current.len() > 0 {
        done.push(current)
    } else {
        done
    }
}

/// The terms in double quotes, with single spaces between them.
pub open spec fn quoted_terms(terms: Seq<Seq<char>>) -> Seq<char>
    decreases terms.len(),
{
    if terms.len() == 0 {
        Seq::empty()
    } else if terms.len() == 1 {
        seq!['"'] + terms[0] + seq!['"']
    } else {
        quoted_terms(terms.drop_last()) + seq![' ', '"'] + terms.last() + seq!['"']
    }
}

/// The full-text query for a raw search text: every term quoted, all of them required,
/// and the last one matched as a prefix. A text without terms has no query.
pub open spec fn fts_query(raw: Seq<char>) -> Option<Seq<char>> {
    let terms = search_terms(raw);
    if terms.len() == 0 {
        None
    } else {
        Some(quoted_terms(terms) + seq!['*'])
    }
}

fn char_is_search_char(c: char) -> (r: bool)
    ensures
        r == is_search_char(c),
{
    char_is_ascii_alnum(c) || c == '*' || c == '-' || c == '_' || c == '.' || c == '+' || c == '#'
        || c == '@' || c == '/' || c == ':' || c == '(' || c == ')' || c == '[' || c == ']'
}

/// The search terms of a text.
pub fn split_search_terms(chars: &[char]) -> (terms: Vec<Vec<char>>)
    ensures
        terms@.map_values(|t: Vec<char>| t@) == search_terms(chars@),
{
    let mut done: Vec<Vec<char>> = Vec::new();
    let mut current: Vec<char> = Vec::new();
    let mut i: usize = 0;
    while i < chars.len()
        invariant
            i <= chars.len(),
            (done@.map_values(|t: Vec<char>| t@), current@) == search_scan(chars@.take(i as int)),
        decreases chars.len() - i,
    {
        let c = chars[i];
        let ghost views = done@.map_values(|t: Vec<char>| t@);
        let ghost partial = current@;
        proof {
            assert(chars@.take(i + 1).drop_last() =~= chars@.take(i as int));
            assert(chars@.take(i + 1).last() == c);
        }
        if char_is_whitespace(c) {
            if current.len() > 0 {
                done.push(current);
                current = Vec::new();
                assert(done@.map_values(|t: Vec<char>| t@) =~= views.push(partial));
            }
        } else if char_is_search_char(c) {
            current.push(c);
        }
        i += 1;
    }
    assert(chars@.take(chars.len() as int) =~= chars@);
    if current.len() > 0 {
        let ghost views = done@.map_values(|t: Vec<char>| t@);
        let ghost partial = current@;
        done.push(current);
        assert(done@.map_values(|t: Vec<char>| t@) =~= views.push(partial));
    }
    done
}

/// Turns a raw search text into a full-text query that cannot break the query syntax.
pub fn sanitize_fts_query(raw: &str) -> (r: Result<String, ContentError>)
    ensures
        match r {
            Ok(query) => fts_query(raw@) == Some(query@),
            Err(e) => fts_query(raw@) is None && e == ContentError::SearchWithoutTerms,
        },
{
    let chars = chars_of(raw);
    let terms = split_search_terms(chars.as_slice());
    if terms.len() == 0 {
        return Err(ContentError::SearchWithoutTerms);
    }
    let ghost views = terms@.map_values(|t: Vec<char>| t@);
    let mut out: Vec<char> = Vec::new();
    let mut i: usize = 0;
    while i < terms.len()
        invariant
            i <= terms.len(),
            views == terms@.map_values(|t: Vec<char>| t@),
            out@ == quoted_terms(views.take(i as int)),
        decreases terms.len() - i,
    {
        let ghost before = out@;
        proof {
            assert(views.take(i + 1).drop_last() =~= views.take(i as int));
            assert(views.take(i + 1).last() == terms@[i as int]@);
            assert(views.take(i + 1).len() == i + 1);
            if i == 0 {
                assert(views.take(1)[0] == terms@[0]@);
            }
        }
        if i > 0 {
            out.push(' ');
        }
        out.push('"');
        let term = &terms[i];
        let mut k: usize = 0;
        while k < term.len()
            invariant
                k <= term.len(),
                out@ == before + (if i > 0 {
                    seq![' ', '"']
                } else {
                    seq!['"']
                }) + term@.take(k as int),
            decreases term.len() - k,
        {
            out.push(term[k]);
            assert(term@.take(k + 1) =~= term@.take(k as int).push(term@[k as int]));
            k += 1;
        }
        assert(term@.take(term.len() as int) =~= term@);
        out.push('"');
        proof {
            if i > 0 {
                assert(out@ =~= before + seq![' ', '"'] + term@ + seq!['"']);
            } else {
                assert(before =~= Seq::<char>::empty());
                assert(out@ =~= seq!['"'] + term@ + seq!['"']);
            }
        }
        i += 1;
    }
    assert(views.take(terms.len() as int) =~= views);
    out.push('*');
    Ok(string_of(out.as_slice()))
}

/// The text with a backslash put before every `%`, `_` and `\`.
pub open spec fn like_escaped(s: Seq<char>) -> Seq<char>
    decreases s.len(),
{
    if s.len() == 0 {
        Seq::empty()
    } else {
        let c = s.last();
        if c == '%' || c == '_' || c == '\\' {
            like_escaped(s.drop_last()).push('\\').push(c)
        } else {
            like_escaped(s.drop_last()).push(c)
        }
    }
}

/// Escapes a text for use inside a `LIKE` pattern.
pub fn escape_like_pattern(value: &str) -> (escaped: String)
    ensures
        escaped@ == like_escaped(value@),
{
    let chars = chars_of(value);
    let mut out: Vec<char> = Vec::new();
    let mut i: usize = 0;
    while i < chars.len()
        invariant
            i <= chars.len(),
            out@ == like_escaped(chars@.take(i as int)),
        decreases chars.len() - i,
    {
        let c = chars[i];
        proof {
            assert(chars@.take(i + 1).drop_last() =~= chars@.take(i as int));
            assert(chars@.take(i + 1).last() == c);
        }
        if c == '%' || c == '_' || c == '\\' {
            out.push('\\');
        }
        out.push(c);
        i += 1;
    }
    assert(chars@.take(chars.len() as int) =~= chars@);
    string_of(out.as_slice())
}

/// The pattern that finds a topic anywhere in a list of topics; none for a blank topic.
pub open spec fn topic_pattern(topic: Option<Seq<char>>) -> Option<Seq<char>> {
    match topic {
        Some(raw) => if trim(raw).len() == 0 {
            None
        } else {
            Some(seq!['%'] + like_escaped(trim(raw)) + seq!['%'])
        },
        None => None,
    }
}

/// Builds the `LIKE` pattern for an optional topic filter.
pub fn build_topic_pattern(topic: Option<&str>) -> (r: Option<String>)
    ensures
        match r {
            Some(pattern) => topic_pattern(crate::text::text_of(topic)) == Some(pattern@),
            None => topic_pattern(crate::text::text_of(topic)) is None,
        },
{
    match topic {
        Some(raw) => {
            let chars = chars_of(raw);
            let trimmed = trim_chars(chars.as_slice());
            if trimmed.len() == 0 {
                return None;
            }
            let text = string_of(trimmed.as_slice());
            let escaped = escape_like_pattern(text.as_str());
            let inner = chars_of(escaped.as_str());
            let mut out: Vec<char> = Vec::new();
            out.push('%');
            let mut i: usize = 0;
            while i < inner.len()
                invariant
                    i <= inner.len(),
                    out@ == seq!['%'] + inner@.take(i as int),
                decreases inner.len() - i,
            {
                out.push(inner[i]);
                assert(seq!['%'] + inner@.take(i + 1) =~= (seq!['%'] + inner@.take(i as int)).push(
                    inner@[i as int],
                ));
                i += 1;
            }
            assert(inner@.take(inner.len() as int) =~= inner@);
            out.push('%');
            Some(string_of(out.as_slice()))
        },
        None => None,
    }
}

/// What is asked of a search request before it is run: a query that is not blank and
/// has at most 500 bytes.
pub open spec fn search_request_verdict(query: Seq<char>) -> Result<(), ContentError> {
    if trim(query).len() == 0 {
        Err(ContentError::SearchQueryEmpty)
    } else if encode_utf8(query).len() > 500 {
        Err(ContentError::SearchQueryTooLong)
    } else {
        Ok(())
    }
}

/// Checks a search request.
pub fn validate_search_request(query: &str) -> (r: Result<(), ContentError>)
    ensures
        r == search_request_verdict(query@),
{
    let chars = chars_of(query);
    let trimmed = trim_chars(chars.as_slice());
    if trimmed.len() == 0 {
        return Err(ContentError::SearchQueryEmpty);
    }
    if query.as_bytes().len() > 500 {
        return Err(ContentError::SearchQueryTooLong);
    }
    Ok(())
}

} // verus!
