//! Small verified helpers for working with text as sequences of characters.

use vstd::prelude::*;
use vstd::utf8::{decode_utf8, valid_utf8};

verus! {

/// `String::push` appends one character to the end of the string.
pub assume_specification[ String::push ](s: &mut String, c: char)
    ensures
        final(s)@ == old(s)@.push(c),
;

/// Trusted: `String::from_utf8` of the standard library. Bytes that are well-formed
/// UTF-8 become the text they encode; any others are refused.
#[verifier::external_body]
pub(crate) fn string_from_utf8(bytes: Vec<u8>) -> (r: Option<String>)
    ensures
        match r {
            Some(text) => valid_utf8(bytes@) && text@ == decode_utf8(bytes@),
            None => !valid_utf8(bytes@),
        },
{
    String::from_utf8(bytes).ok()
}

/// Whether a character is a letter or a number of any script.
pub uninterp spec fn unicode_alphanumeric(c: char) -> bool;

/// Trusted: `char::is_alphanumeric` of the standard library. The answer depends on the
/// character alone.
#[verifier::external_body]
pub(crate) fn char_is_alphanumeric(c: char) -> (r: bool)
    ensures
        r == unicode_alphanumeric(c),
{
    c.is_alphanumeric()
}

/// A text in lower case, by the rules of every script.
pub uninterp spec fn unicode_lower(text: Seq<char>) -> Seq<char>;

/// Trusted: `str::to_lowercase` of the standard library. The result depends on the text
/// alone.
#[verifier::external_body]
pub(crate) fn str_to_lowercase(text: &str) -> (r: String)
    ensures
        r@ == unicode_lower(text@),
{
    text.to_lowercase()
}

/// `'a'..='z'`.
pub open spec fn is_ascii_lower(c: char) -> bool {
    0x61 <= c as u32 <= 0x7a
}

/// `'A'..='Z'`.
pub open spec fn is_ascii_upper(c: char) -> bool {
    0x41 <= c as u32 <= 0x5a
}

/// `'0'..='9'`.
pub open spec fn is_ascii_digit(c: char) -> bool {
    0x30 <= c as u32 <= 0x39
}

/// An ASCII letter or digit.
pub open spec fn is_ascii_alnum(c: char) -> bool {
    is_ascii_lower(c) || is_ascii_upper(c) || is_ascii_digit(c)
}

/// The characters with the Unicode `White_Space` property.
pub open spec fn is_whitespace(c: char) -> bool {
    let n = c as u32;
    ||| 0x09 <= n <= 0x0d
    ||| n == 0x20
    ||| n == 0x85
    ||| n == 0xa0
    ||| n == 0x1680
    ||| 0x2000 <= n <= 0x200a
    ||| n == 0x2028
    ||| n == 0x2029
    ||| n == 0x202f
    ||| n == 0x205f
    ||| n == 0x3000
}

/// Maps `'A'..='Z'` to `'a'..='z'` and leaves every other character alone.
pub open spec fn ascii_lower(c: char) -> char {
    if is_ascii_upper(c) {
        ((c as u32 + 32) as u8) as char
    } else {
        c
    }
}

pub fn char_is_ascii_lower(c: char) -> (r: bool)
    ensures
        r == is_ascii_lower(c),
{
    let n: u32 = c as u32;
    0x61 <= n && n <= 0x7a
}

pub fn char_is_ascii_upper(c: char) -> (r: bool)
    ensures
        r == is_ascii_upper(c),
{
    let n: u32 = c as u32;
    0x41 <= n && n <= 0x5a
}

pub fn char_is_ascii_digit(c: char) -> (r: bool)
    ensures
        r == is_ascii_digit(c),
{
    let n: u32 = c as u32;
    0x30 <= n && n <= 0x39
}

pub fn char_is_ascii_alnum(c: char) -> (r: bool)
    ensures
        r == is_ascii_alnum(c),
{
    char_is_ascii_lower(c) || char_is_ascii_upper(c) || char_is_ascii_digit(c)
}

pub fn char_is_whitespace(c: char) -> (r: bool)
    ensures
        r == is_whitespace(c),
{
    let n: u32 = c as u32;
    (0x09 <= n && n <= 0x0d) || n == 0x20 || n == 0x85 || n == 0xa0 || n == 0x1680 || (0x2000 <= n
        && n <= 0x200a) || n == 0x2028 || n == 0x2029 || n == 0x202f || n == 0x205f || n == 0x3000
}

pub fn char_ascii_lower(c: char) -> (r: char)
    ensures
        r == ascii_lower(c),
{
    if char_is_ascii_upper(c) {
        let n: u32 = c as u32 + 32;
        (n as u8) as char
    } else {
        c
    }
}

/// The text behind an optional string slice.
pub open spec fn text_of(raw: Option<&str>) -> Option<Seq<char>> {
    match raw {
        Some(value) => Some(value@),
        None => None,
    }
}

/// The characters of a string, in order.
pub fn chars_of(s: &str) -> (out: Vec<char>)
    ensures
        out@ == s@,
{
    let mut out: Vec<char> = Vec::new();
    for c in it: s.chars()
        invariant
            out@ == it.seq().take(it.index() as int),
            it.seq() == s@,
    {
        out.push(c);
    }
    out
}

/// The string made of the given characters, in order.
pub fn string_of(chars: &[char]) -> (out: String)
    ensures
        out@ == chars@,
{
    let mut out = String::new();
    let mut i: usize = 0;
    while i < chars.len()
        invariant
            i <= chars.len(),
            out@ == chars@.take(i as int),
        decreases chars.len() - i,
    {
        out.push(chars[i]);
        i += 1;
    }
    out
}

/// `s` without its leading whitespace.
pub open spec fn trim_start(s: Seq<char>) -> Seq<char>
    decreases s.len(),
{
    if s.len() > 0 && is_whitespace(s[0]) {
        trim_start(s.drop_first())
    } else {
        s
    }
}

/// `s` without its trailing whitespace.
pub open spec fn trim_end(s: Seq<char>) -> Seq<char>
    decreases s.len(),
{
    if s.len() > 0 && is_whitespace(s.last()) {
        trim_end(s.drop_last())
    } else {
        s
    }
}

/// `s` without leading and trailing whitespace.
pub open spec fn trim(s: Seq<char>) -> Seq<char> {
    trim_end(trim_start(s))
}

/// Skipping a run of leading whitespace does not change what `trim_start` gives.
pub proof fn lemma_trim_start_skip(s: Seq<char>, i: int)
    requires
        0 <= i <= s.len(),
        forall|k: int| 0 <= k < i ==> is_whitespace(#[trigger] s[k]),
    ensures
        trim_start(s) == trim_start(s.skip(i)),
    decreases i,
{
    if i == 0 {
        assert(s.skip(0) =~= s);
    } else {
        assert(is_whitespace(s[0]));
        let rest = s.drop_first();
        assert forall|k: int| 0 <= k < i - 1 implies is_whitespace(#[trigger] rest[k]) by {
            assert(rest[k] == s[k + 1]);
        }
        lemma_trim_start_skip(rest, i - 1);
        assert(rest.skip(i - 1) =~= s.skip(i));
    }
}

/// Dropping a run of trailing whitespace does not change what `trim_end` gives.
pub proof fn lemma_trim_end_take(s: Seq<char>, j: int)
    requires
        0 <= j <= s.len(),
        forall|k: int| j <= k < s.len() ==> is_whitespace(#[trigger] s[k]),
    ensures
        trim_end(s) == trim_end(s.take(j)),
    decreases s.len() - j,
{
    if j == s.len() {
        assert(s.take(j) =~= s);
    } else {
        assert(is_whitespace(s.last()));
        let rest = s.drop_last();
        assert forall|k: int| j <= k < rest.len() implies is_whitespace(#[trigger] rest[k]) by {
            assert(rest[k] == s[k]);
        }
        lemma_trim_end_take(rest, j);
        assert(rest.take(j) =~= s.take(j));
    }
}

/// Trimming never makes a text longer.
pub proof fn lemma_trim_shorter(s: Seq<char>)
    ensures
        trim_start(s).len() <= s.len(),
        trim_end(s).len() <= s.len(),
        trim(s).len() <= s.len(),
    decreases s.len(),
{
    if s.len() > 0 {
        lemma_trim_shorter(s.drop_first());
        lemma_trim_shorter(s.drop_last());
    }
    lemma_trim_end_shorter(trim_start(s));
}

/// Trimming the end never makes a text longer.
pub proof fn lemma_trim_end_shorter(s: Seq<char>)
    ensures
        trim_end(s).len() <= s.len(),
    decreases s.len(),
{
    if s.len() > 0 {
        lemma_trim_end_shorter(s.drop_last());
    }
}

/// Copies `chars[from..to]`.
pub fn copy_range(chars: &[char], from: usize, to: usize) -> (out: Vec<char>)
    requires
        from <= to <= chars.len(),
    ensures
        out@ == chars@.subrange(from as int, to as int),
{
    let mut out: Vec<char> = Vec::new();
    let mut i: usize = from;
    while i < to
        invariant
            from <= i <= to <= chars.len(),
            out@ == chars@.subrange(from as int, i as int),
        decreases to - i,
    {
        out.push(chars[i]);
        i += 1;
    }
    out
}

/// The text without its leading and trailing whitespace.
pub fn trim_chars(chars: &[char]) -> (out: Vec<char>)
    ensures
        out@ == trim(chars@),
{
    let n: usize = chars.len();
    let mut start: usize = 0;
    while start < n && char_is_whitespace(chars[start])
        invariant
            start <= n == chars.len(),
            forall|k: int| 0 <= k < start ==> is_whitespace(#[trigger] chars@[k]),
        decreases n - start,
    {
        start += 1;
    }
    let mut end: usize = n;
    while end > start && char_is_whitespace(chars[end - 1])
        invariant
            start <= end <= n == chars.len(),
            forall|k: int| end <= k < n ==> is_whitespace(#[trigger] chars@[k]),
        decreases end,
    {
        end -= 1;
    }
    proof {
        let s = chars@;
        lemma_trim_start_skip(s, start as int);
        let t = s.skip(start as int);
        assert(trim_start(t) == t);
        assert forall|k: int| end - start <= k < t.len() implies is_whitespace(#[trigger] t[k]) by {
            assert(t[k] == s[k + start]);
        }
        lemma_trim_end_take(t, end - start);
        let u = t.take(end - start);
        assert(u =~= s.subrange(start as int, end as int));
        if u.len() > 0 {
            assert(u.last() == s[end - 1]);
        }
        assert(trim_end(u) == u);
    }
    copy_range(chars, start, end)
}

/// Equality of two texts when `'A'..='Z'` and `'a'..='z'` are not told apart.
pub open spec fn eq_ignore_ascii_case(a: Seq<char>, b: Seq<char>) -> bool {
    &&& a.len() == b.len()
    &&& forall|i: int| 0 <= i < a.len() ==> ascii_lower(#[trigger] a[i]) == ascii_lower(b[i])
}

pub fn chars_eq_ignore_ascii_case(a: &[char], b: &[char]) -> (r: bool)
    ensures
        r == eq_ignore_ascii_case(a@, b@),
{
    if a.len() != b.len() {
        return false;
    }
    let mut i: usize = 0;
    while i < a.len()
        invariant
            i <= a.len() == b.len(),
            forall|k: int| 0 <= k < i ==> ascii_lower(#[trigger] a@[k]) == ascii_lower(b@[k]),
        decreases a.len() - i,
    {
        if char_ascii_lower(a[i]) != char_ascii_lower(b[i]) {
            return false;
        }
        i += 1;
    }
    true
}

pub fn chars_eq(a: &[char], b: &[char]) -> (r: bool)
    ensures
        r == (a@ == b@),
{
    if a.len() != b.len() {
        return false;
    }
    let mut i: usize = 0;
    while i < a.len()
        invariant
            i <= a.len() == b.len(),
            forall|k: int| 0 <= k < i ==> a@[k] == b@[k],
        decreases a.len() - i,
    {
        if a[i] != b[i] {
            return false;
        }
        i += 1;
    }
    assert(a@ =~= b@);
    true
}

/// Whether two string slices hold the same text.
pub fn str_eq(a: &str, b: &str) -> (r: bool)
    ensures
        r == (a@ == b@),
{
    let x = chars_of(a);
    let y = chars_of(b);
    chars_eq(x.as_slice(), y.as_slice())
}

/// The pieces of `s` between occurrences of `sep`. A text without `sep` is one piece;
/// a separator at either end leaves an empty piece there.
pub open spec fn split_on(s: Seq<char>, sep: char) -> Seq<Seq<char>>
    decreases s.len(),
{
    if s.len() == 0 {
        seq![Seq::<char>::empty()]
    } else {
        let before = split_on(s.drop_last(), sep);
        if s.last() == sep {
            before.push(Seq::<char>::empty())
        } else {
            before.update(before.len() - 1, before.last().push(s.last()))
        }
    }
}

/// Whether `c` does not occur in `s`.
pub open spec fn free_of(s: Seq<char>, c: char) -> bool {
    forall|i: int| 0 <= i < s.len() ==> #[trigger] s[i] != c
}

/// There is always at least one piece, and no piece holds the separator.
pub proof fn lemma_split_shape(s: Seq<char>, sep: char)
    ensures
        split_on(s, sep).len() >= 1,
        forall|k: int| 0 <= k < split_on(s, sep).len() ==> free_of(#[trigger] split_on(s, sep)[k], sep),
    decreases s.len(),
{
    if s.len() > 0 {
        lemma_split_shape(s.drop_last(), sep);
        let before = split_on(s.drop_last(), sep);
        assert forall|k: int| 0 <= k < split_on(s, sep).len() implies free_of(
            #[trigger] split_on(s, sep)[k],
            sep,
        ) by {
            if s.last() == sep {
                if k < before.len() {
                    assert(split_on(s, sep)[k] == before[k]);
                }
            } else {
                if k < before.len() - 1 {
                    assert(split_on(s, sep)[k] == before[k]);
                } else {
                    assert(free_of(before[k], sep));
                }
            }
        }
    }
}

/// A text without the separator is its own single piece.
pub proof fn lemma_split_free(s: Seq<char>, sep: char)
    requires
        free_of(s, sep),
    ensures
        split_on(s, sep) == seq![s],
    decreases s.len(),
{
    if s.len() == 0 {
        assert(s =~= Seq::<char>::empty());
    } else {
        let rest = s.drop_last();
        assert forall|i: int| 0 <= i < rest.len() implies #[trigger] rest[i] != sep by {
            assert(rest[i] == s[i]);
        }
        lemma_split_free(rest, sep);
        assert(s.last() == s[s.len() - 1]);
        assert(rest.push(s.last()) =~= s);
        assert(split_on(s, sep) =~= seq![s]);
    }
}

/// A text that splits into one piece does not hold the separator.
pub proof fn lemma_split_single(s: Seq<char>, sep: char)
    requires
        split_on(s, sep).len() == 1,
    ensures
        free_of(s, sep),
        split_on(s, sep) == seq![s],
    decreases s.len(),
{
    if s.len() > 0 {
        let rest = s.drop_last();
        lemma_split_shape(rest, sep);
        assert(s.last() != sep);
        lemma_split_single(rest, sep);
        assert forall|i: int| 0 <= i < s.len() implies #[trigger] s[i] != sep by {
            if i < rest.len() {
                assert(rest[i] == s[i]);
            }
        }
    }
    lemma_split_free(s, sep);
}

/// Splitting a concatenation: the last piece of the left part and the first piece of the
/// right part run together, and the other pieces stay as they are.
pub proof fn lemma_split_concat(a: Seq<char>, b: Seq<char>, sep: char)
    ensures
        split_on(a + b, sep) == split_on(a, sep).drop_last().push(
            split_on(a, sep).last() + split_on(b, sep)[0],
        ) + split_on(b, sep).drop_first(),
    decreases b.len(),
{
    lemma_split_shape(a, sep);
    lemma_split_shape(b, sep);
    let pa = split_on(a, sep);
    if b.len() == 0 {
        assert(a + b =~= a);
        assert(pa.last() + Seq::<char>::empty() =~= pa.last());
        assert(pa.drop_last().push(pa.last()) =~= pa);
        assert(split_on(b, sep).drop_first() =~= Seq::<Seq<char>>::empty());
        assert(pa + Seq::<Seq<char>>::empty() =~= pa);
    } else {
        let b0 = b.drop_last();
        lemma_split_concat(a, b0, sep);
        lemma_split_shape(b0, sep);
        assert((a + b).drop_last() =~= a + b0);
        assert((a + b).last() == b.last());
        let pb0 = split_on(b0, sep);
        let pb = split_on(b, sep);
        let joined0 = pa.drop_last().push(pa.last() + pb0[0]) + pb0.drop_first();
        assert(split_on(a + b0, sep) == joined0);
        let joined = pa.drop_last().push(pa.last() + pb[0]) + pb.drop_first();
        if b.last() == sep {
            assert(pb == pb0.push(Seq::<char>::empty()));
            assert(pb[0] == pb0[0]);
            assert(pb.drop_first() =~= pb0.drop_first().push(Seq::<char>::empty()));
            assert(joined0.push(Seq::<char>::empty()) =~= joined);
        } else {
            if pb0.len() == 1 {
                assert(pb[0] == pb0[0].push(b.last()));
                assert(pb.drop_first() =~= pb0.drop_first());
                assert((pa.last() + pb0[0]).push(b.last()) =~= pa.last() + pb[0]);
                assert(joined0.update(joined0.len() - 1, joined0.last().push(b.last()))
                    =~= joined);
            } else {
                assert(pb[0] == pb0[0]);
                assert(pb.drop_first() =~= pb0.drop_first().update(
                    pb0.len() - 2,
                    pb0.last().push(b.last()),
                ));
                assert(joined0.last() == pb0.last());
                assert(joined0.update(joined0.len() - 1, joined0.last().push(b.last()))
                    =~= joined);
            }
        }
    }
}

/// The last piece is the end of the text; what stands before it, when there is more
/// than one piece, ends with the separator and splits into the other pieces and an
/// empty one.
pub proof fn lemma_split_last(s: Seq<char>, sep: char)
    ensures
        split_on(s, sep).len() >= 1,
        split_on(s, sep).last().len() <= s.len(),
        s.skip(s.len() - split_on(s, sep).last().len()) == split_on(s, sep).last(),
        split_on(s, sep).len() >= 2 ==> split_on(
            s.take(s.len() - split_on(s, sep).last().len()),
            sep,
        ) == split_on(s, sep).drop_last().push(Seq::<char>::empty()),
    decreases s.len(),
{
    lemma_split_shape(s, sep);
    let p = split_on(s, sep);
    if s.len() == 0 {
        assert(s.skip(0) =~= p.last());
    } else {
        let rest = s.drop_last();
        lemma_split_last(rest, sep);
        lemma_split_shape(rest, sep);
        let p0 = split_on(rest, sep);
        if s.last() == sep {
            assert(p.last() =~= Seq::<char>::empty());
            assert(s.skip(s.len() as int) =~= p.last());
            assert(s.take(s.len() as int) =~= s);
            assert(p.drop_last().push(Seq::<char>::empty()) =~= p);
        } else {
            let l0 = p0.last();
            assert(p.last() == l0.push(s.last()));
            assert(s.skip(s.len() - p.last().len()) =~= rest.skip(rest.len() - l0.len()).push(
                s.last(),
            ));
            if p.len() >= 2 {
                assert(s.take(s.len() - p.last().len()) =~= rest.take(rest.len() - l0.len()));
                assert(p.drop_last() =~= p0.drop_last());
            }
        }
    }
}

/// Splits the text at every occurrence of `sep`.
pub fn split_chars(chars: &[char], sep: char) -> (out: Vec<Vec<char>>)
    ensures
        out@.map_values(|piece: Vec<char>| piece@) == split_on(chars@, sep),
        out.len() >= 1,
{
    let mut done: Vec<Vec<char>> = Vec::new();
    let mut current: Vec<char> = Vec::new();
    let mut i: usize = 0;
    while i < chars.len()
        invariant
            i <= chars.len(),
            done@.map_values(|piece: Vec<char>| piece@).push(current@) == split_on(
                chars@.take(i as int),
                sep,
            ),
        decreases chars.len() - i,
    {
        let c = chars[i];
        proof {
            let next = chars@.take(i + 1);
            assert(next.drop_last() =~= chars@.take(i as int));
            assert(next.last() == c);
            let before = split_on(chars@.take(i as int), sep);
            let views = done@.map_values(|piece: Vec<char>| piece@);
            assert(before.last() == current@);
            assert(before.len() - 1 == views.len());
            if c == sep {
                assert(views.push(current@).push(Seq::<char>::empty()) == split_on(next, sep));
            } else {
                assert(views.push(current@.push(c)) =~= before.update(
                    before.len() - 1,
                    before.last().push(c),
                ));
            }
        }
        if c == sep {
            let ghost views = done@.map_values(|piece: Vec<char>| piece@);
            let ghost filled = current@;
            done.push(current);
            current = Vec::new();
            assert(done@.map_values(|piece: Vec<char>| piece@) =~= views.push(filled));
        } else {
            current.push(c);
        }
        i += 1;
    }
    let ghost views = done@.map_values(|piece: Vec<char>| piece@);
    let ghost filled = current@;
    done.push(current);
    assert(done@.map_values(|piece: Vec<char>| piece@) =~= views.push(filled));
    assert(chars@.take(chars.len() as int) =~= chars@);
    done
}

/// The character for a value below ten.
pub open spec fn digit_char(d: int) -> char
    recommends
        0 <= d < 10,
{
    ((0x30 + d) as u8) as char
}

/// The value of a decimal digit.
pub open spec fn digit_value(c: char) -> int
    recommends
        is_ascii_digit(c),
{
    c as u32 - 0x30
}

/// The decimal digits of `n`, most significant first, without leading zeros.
pub open spec fn decimal_digits(n: nat) -> Seq<char>
    decreases n,
{
    if n < 10 {
        seq![digit_char(n as int)]
    } else {
        decimal_digits(n / 10).push(digit_char((n % 10) as int))
    }
}

/// `i` written in decimal, with `-` in front of a negative number.
pub open spec fn decimal_text(i: int) -> Seq<char> {
    if i < 0 {
        seq!['-'] + decimal_digits((-i) as nat)
    } else {
        decimal_digits(i as nat)
    }
}

/// Whether every character is a decimal digit.
pub open spec fn all_digits(s: Seq<char>) -> bool {
    forall|i: int| 0 <= i < s.len() ==> is_ascii_digit(#[trigger] s[i])
}

/// The number that a run of decimal digits stands for.
pub open spec fn digits_value(s: Seq<char>) -> nat
    decreases s.len(),
{
    if s.len() == 0 {
        0
    } else {
        (digits_value(s.drop_last()) * 10 + digit_value(s.last())) as nat
    }
}

/// Reads a decimal integer: an optional `+` or `-`, then one or more digits and
/// nothing else.
pub open spec fn parse_decimal(s: Seq<char>) -> Option<int> {
    if s.len() > 0 && s[0] == '-' {
        if s.len() > 1 && all_digits(s.skip(1)) {
            Some(-(digits_value(s.skip(1)) as int))
        } else {
            None
        }
    } else if s.len() > 0 && s[0] == '+' {
        if s.len() > 1 && all_digits(s.skip(1)) {
            Some(digits_value(s.skip(1)) as int)
        } else {
            None
        }
    } else if s.len() > 0 && all_digits(s) {
        Some(digits_value(s) as int)
    } else {
        None
    }
}

/// Reads a decimal integer that fits in 64 bits with sign.
pub open spec fn parse_i64(s: Seq<char>) -> Option<i64> {
    match parse_decimal(s) {
        Some(v) => if i64::MIN <= v <= i64::MAX {
            Some(v as i64)
        } else {
            None
        },
        None => None,
    }
}

/// The digits of a number are digits, and stand for that number.
pub proof fn lemma_decimal_digits(n: nat)
    ensures
        decimal_digits(n).len() >= 1,
        all_digits(decimal_digits(n)),
        digits_value(decimal_digits(n)) == n,
    decreases n,
{
    if n < 10 {
        let s = decimal_digits(n);
        assert(s.drop_last() =~= Seq::<char>::empty());
        assert(digits_value(s.drop_last()) == 0);
    } else {
        lemma_decimal_digits(n / 10);
        let s = decimal_digits(n);
        let p = decimal_digits(n / 10);
        assert(s.drop_last() =~= p);
        assert(s.last() == digit_char((n % 10) as int));
        assert forall|i: int| 0 <= i < s.len() implies is_ascii_digit(#[trigger] s[i]) by {
            if i < p.len() {
                assert(s[i] == p[i]);
            }
        }
    }
}

/// Reading back what `decimal_text` wrote gives the number.
pub proof fn lemma_parse_decimal_text(i: int)
    ensures
        parse_decimal(decimal_text(i)) == Some(i),
{
    if i < 0 {
        let d = decimal_digits((-i) as nat);
        lemma_decimal_digits((-i) as nat);
        let s = decimal_text(i);
        assert(s.skip(1) =~= d);
        assert(s[0] == '-');
    } else {
        let d = decimal_digits(i as nat);
        lemma_decimal_digits(i as nat);
        assert(is_ascii_digit(d[0]));
        assert(d[0] != '-' && d[0] != '+');
    }
}

/// A decimal text holds only digits and, in front, possibly `-`.
pub proof fn lemma_decimal_text_chars(i: int)
    ensures
        decimal_text(i).len() >= 1,
        forall|k: int| 0 <= k < decimal_text(i).len() ==> is_ascii_digit(#[trigger] decimal_text(i)[k])
            || decimal_text(i)[k] == '-',
{
    if i < 0 {
        lemma_decimal_digits((-i) as nat);
        let d = decimal_digits((-i) as nat);
        let s = decimal_text(i);
        assert forall|k: int| 0 <= k < s.len() implies is_ascii_digit(#[trigger] s[k]) || s[k]
            == '-' by {
            if k > 0 {
                assert(s[k] == d[k - 1]);
            }
        }
    } else {
        lemma_decimal_digits(i as nat);
    }
}

/// A longer run of digits does not stand for a smaller number than its beginning.
pub proof fn lemma_digits_value_prefix(s: Seq<char>, i: int)
    requires
        0 <= i <= s.len(),
        all_digits(s),
    ensures
        digits_value(s.take(i)) <= digits_value(s),
    decreases s.len() - i,
{
    if i == s.len() {
        assert(s.take(i) =~= s);
    } else {
        let rest = s.drop_last();
        assert forall|k: int| 0 <= k < rest.len() implies is_ascii_digit(#[trigger] rest[k]) by {
            assert(rest[k] == s[k]);
        }
        lemma_digits_value_prefix(rest, i);
        assert(rest.take(i) =~= s.take(i));
        assert(is_ascii_digit(s.last()));
    }
}

/// Writes `n` in decimal.
pub fn format_i64(n: i64) -> (out: Vec<char>)
    ensures
        out@ == decimal_text(n as int),
{
    let negative = n < 0;
    let mut m: u64 = if negative {
        if n == i64::MIN {
            0x8000_0000_0000_0000u64
        } else {
            (-n) as u64
        }
    } else {
        n as u64
    };
    let ghost magnitude: nat = m as nat;
    let mut low: Vec<char> = Vec::new();
    let ghost mut tail: Seq<char> = Seq::empty();
    while m >= 10
        invariant
            decimal_digits(magnitude) == decimal_digits(m as nat) + tail,
            tail.len() == low.len(),
            forall|k: int| 0 <= k < tail.len() ==> tail[k] == #[trigger] low@[low.len() - 1 - k],
        decreases m,
    {
        let d: u8 = (m % 10) as u8;
        let c: char = (0x30u8 + d) as char;
        proof {
            let ghost before = decimal_digits(m as nat);
            assert(before == decimal_digits((m / 10) as nat).push(digit_char((m % 10) as int)));
            assert(c == digit_char((m % 10) as int));
            assert(before + tail =~= decimal_digits((m / 10) as nat) + (seq![c] + tail));
            tail = seq![c] + tail;
        }
        let ghost shorter = low@;
        low.push(c);
        m = m / 10;
        assert forall|k: int| 0 <= k < tail.len() implies tail[k] == #[trigger] low@[low.len() - 1
            - k] by {
            if k > 0 {
                assert(tail[k] == shorter[shorter.len() - 1 - (k - 1)]);
            }
        }
    }
    let mut out: Vec<char> = Vec::new();
    if negative {
        out.push('-');
    }
    let first: char = (0x30u8 + (m as u8)) as char;
    out.push(first);
    let ghost head: Seq<char> = out@;
    assert(decimal_digits(m as nat) =~= seq![first]);
    let mut i: usize = low.len();
    while i > 0
        invariant
            i <= low.len() == tail.len(),
            forall|k: int| 0 <= k < tail.len() ==> tail[k] == #[trigger] low@[low.len() - 1 - k],
            out@ == head + tail.take(low.len() - i),
        decreases i,
    {
        i -= 1;
        out.push(low[i]);
        proof {
            let k = low.len() - 1 - i;
            assert(tail[k] == low@[low.len() - 1 - k]);
            assert(tail.take(k + 1) =~= tail.take(k).push(tail[k]));
            assert(head + tail.take(k + 1) =~= (head + tail.take(k)).push(tail[k]));
        }
    }
    proof {
        assert(tail.take(low.len() as int) =~= tail);
        if negative {
            assert(head =~= seq!['-'] + seq![first]);
            assert(out@ =~= seq!['-'] + (seq![first] + tail));
        }
    }
    out
}

/// Reads a decimal integer that fits in 64 bits with sign: an optional `+` or `-`,
/// then one or more digits and nothing else.
pub fn parse_i64_chars(chars: &[char]) -> (r: Option<i64>)
    ensures
        r == parse_i64(chars@),
{
    let n: usize = chars.len();
    if n == 0 {
        return None;
    }
    let negative = chars[0] == '-';
    let start: usize = if negative || chars[0] == '+' {
        1
    } else {
        0
    };
    if start == n {
        return None;
    }
    let ghost digits = chars@.skip(start as int);
    assert(chars@.skip(0) =~= chars@);
    assert(digits.take(0) =~= Seq::<char>::empty());
    let mut acc: i128 = 0;
    let mut i: usize = start;
    while i < n
        invariant
            start <= i <= n == chars.len(),
            start < n,
            negative == (chars@[0] == '-'),
            start == (if negative || chars@[0] == '+' {
                1usize
            } else {
                0usize
            }),
            digits == chars@.skip(start as int),
            chars@.skip(0) == chars@,
            all_digits(digits.take(i - start)),
            acc == digits_value(digits.take(i - start)),
            0 <= acc <= 0x8000_0000_0000_0000,
        decreases n - i,
    {
        let c = chars[i];
        assert(c == digits[i - start]);
        if !char_is_ascii_digit(c) {
            assert(!all_digits(digits));
            return None;
        }
        let code: u32 = c as u32;
        let d: i128 = (code - 0x30) as i128;
        proof {
            let next = digits.take(i - start + 1);
            assert(next.drop_last() =~= digits.take(i - start));
            assert(next.last() == c);
            assert forall|k: int| 0 <= k < next.len() implies is_ascii_digit(#[trigger] next[k]) by {
                if k < next.len() - 1 {
                    assert(next[k] == digits.take(i - start)[k]);
                }
            }
        }
        let grown: i128 = acc * 10 + d;
        if grown > 0x8000_0000_0000_0000 {
            proof {
                if all_digits(digits) {
                    lemma_digits_value_prefix(digits, i - start + 1);
                }
            }
            return None;
        }
        acc = grown;
        i += 1;
    }
    assert(digits.take(n - start) =~= digits);
    if negative {
        Some((-acc) as i64)
    } else if acc > 0x7fff_ffff_ffff_ffff {
        None
    } else {
        Some(acc as i64)
    }
}

/// The text with `'A'..='Z'` turned into `'a'..='z'`.
pub open spec fn ascii_lower_text(s: Seq<char>) -> Seq<char> {
    s.map_values(|c: char| ascii_lower(c))
}

/// Turns `'A'..='Z'` into `'a'..='z'`.
pub fn lower_chars(chars: &[char]) -> (out: Vec<char>)
    ensures
        out@ == ascii_lower_text(chars@),
{
    let mut out: Vec<char> = Vec::new();
    let mut i: usize = 0;
    while i < chars.len()
        invariant
            i <= chars.len(),
            out@ == ascii_lower_text(chars@.take(i as int)),
        decreases chars.len() - i,
    {
        out.push(char_ascii_lower(chars[i]));
        assert(out@ =~= ascii_lower_text(chars@.take(i + 1)));
        i += 1;
    }
    assert(chars@.take(chars.len() as int) =~= chars@);
    out
}

/// Whether `s` begins with `prefix`.
pub open spec fn starts_with(s: Seq<char>, prefix: Seq<char>) -> bool {
    prefix.len() <= s.len() && s.take(prefix.len() as int) == prefix
}

/// Whether the text begins with the prefix.
pub fn chars_start_with(chars: &[char], prefix: &[char]) -> (r: bool)
    ensures
        r == starts_with(chars@, prefix@),
{
    if prefix.len() > chars.len() {
        return false;
    }
    let mut i: usize = 0;
    while i < prefix.len()
        invariant
            i <= prefix.len() <= chars.len(),
            forall|k: int| 0 <= k < i ==> chars@[k] == prefix@[k],
        decreases prefix.len() - i,
    {
        if chars[i] != prefix[i] {
            assert(chars@.take(prefix.len() as int)[i as int] != prefix@[i as int]);
            return false;
        }
        i += 1;
    }
    assert(chars@.take(prefix.len() as int) =~= prefix@);
    true
}

/// The position of the first `c` in `s`, or the length of `s` where there is none.
pub open spec fn index_of(s: Seq<char>, c: char) -> int
    decreases s.len(),
{
    if s.len() == 0 {
        0
    } else if s[0] == c {
        0
    } else {
        1 + index_of(s.drop_first(), c)
    }
}

/// `index_of` is the position before which `c` does not occur and at which, if it is
/// inside the text, `c` stands.
pub proof fn lemma_index_of(s: Seq<char>, c: char, i: int)
    requires
        0 <= i <= s.len(),
        forall|k: int| 0 <= k < i ==> #[trigger] s[k] != c,
        i < s.len() ==> s[i] == c,
    ensures
        index_of(s, c) == i,
    decreases s.len(),
{
    if s.len() > 0 && i > 0 {
        let rest = s.drop_first();
        assert(s[0] != c);
        assert forall|k: int| 0 <= k < i - 1 implies #[trigger] rest[k] != c by {
            assert(rest[k] == s[k + 1]);
        }
        lemma_index_of(rest, c, i - 1);
    }
}

/// Finds the first `c`; gives the length of the text where there is none.
pub fn find_char(chars: &[char], c: char) -> (i: usize)
    ensures
        i == index_of(chars@, c),
        i <= chars.len(),
{
    let mut i: usize = 0;
    while i < chars.len() && chars[i] != c
        invariant
            i <= chars.len(),
            forall|k: int| 0 <= k < i ==> #[trigger] chars@[k] != c,
        decreases chars.len() - i,
    {
        i += 1;
    }
    proof {
        lemma_index_of(chars@, c, i as int);
    }
    i
}

/// Appending a separator and a piece without separators adds that piece.
pub proof fn lemma_split_push_piece(a: Seq<char>, piece: Seq<char>, sep: char)
    requires
        free_of(piece, sep),
    ensures
        split_on(a + seq![sep] + piece, sep) == split_on(a, sep).push(piece),
{
    let left = a + seq![sep];
    assert(left.drop_last() =~= a);
    assert(left.last() == sep);
    assert(split_on(left, sep) == split_on(a, sep).push(Seq::<char>::empty()));
    lemma_split_free(piece, sep);
    lemma_split_concat(left, piece, sep);
    lemma_split_shape(a, sep);
    let pl = split_on(left, sep);
    assert(pl.drop_last() =~= split_on(a, sep));
    assert(pl.last() + piece =~= piece);
    assert(seq![piece].drop_first() =~= Seq::<Seq<char>>::empty());
    assert(split_on(a, sep).push(piece) + Seq::<Seq<char>>::empty() =~= split_on(a, sep).push(piece));
}

} // verus!
