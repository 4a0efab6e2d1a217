//! The signing secrets and the hashing salt: checked once at start-up, then read-only.

use std::collections::HashSet;

use vstd::prelude::*;
use vstd::string::StrSliceExecFns;

use crate::text::{
    char_is_ascii_alnum, char_is_ascii_digit, char_is_ascii_lower, char_is_ascii_upper,
    chars_eq_ignore_ascii_case, chars_of, eq_ignore_ascii_case, is_ascii_alnum, is_ascii_digit,
    is_ascii_lower, is_ascii_upper, lemma_trim_shorter, string_of, text_of, trim, trim_chars,
};

verus! {

/// Fewest characters of a token-signing secret.
pub const MIN_SECRET_LENGTH: usize = 43;

/// Fewest characters of an anti-forgery secret and of the login salt.
pub const MIN_SHARED_SECRET_LENGTH: usize = 32;

/// Fewest distinct characters of any secret.
pub const MIN_UNIQUE_CHARS: usize = 10;

/// Fewest character classes (lower case, upper case, digit, symbol) of a token-signing
/// secret.
pub const MIN_CHAR_CLASSES: usize = 3;

/// Whether some character of `s` is a lower-case ASCII letter.
pub open spec fn has_lower(s: Seq<char>) -> bool {
    exists|i: int| 0 <= i < s.len() && is_ascii_lower(#[trigger] s[i])
}

/// Whether some character of `s` is an upper-case ASCII letter.
pub open spec fn has_upper(s: Seq<char>) -> bool {
    exists|i: int| 0 <= i < s.len() && is_ascii_upper(#[trigger] s[i])
}

/// Whether some character of `s` is an ASCII digit.
pub open spec fn has_digit(s: Seq<char>) -> bool {
    exists|i: int| 0 <= i < s.len() && is_ascii_digit(#[trigger] s[i])
}

/// Whether some character of `s` is neither an ASCII letter nor an ASCII digit.
pub open spec fn has_symbol(s: Seq<char>) -> bool {
    exists|i: int| 0 <= i < s.len() && !is_ascii_alnum(#[trigger] s[i])
}

/// How many of the four character classes occur in `s`.
pub open spec fn class_count(s: Seq<char>) -> int {
    (if has_lower(s) { 1int } else { 0 }) + (if has_upper(s) { 1int } else { 0 }) + (if has_digit(s) {
        1int
    } else {
        0
    }) + (if has_symbol(s) { 1int } else { 0 })
}

/// How many different characters occur in `s`.
pub open spec fn distinct_chars(s: Seq<char>) -> nat {
    s.to_set().len()
}

/// What is asked of a token-signing secret: long enough, at least three character
/// classes, at least ten different characters.
pub open spec fn has_min_entropy(s: Seq<char>) -> bool {
    &&& s.len() >= MIN_SECRET_LENGTH
    &&& class_count(s) >= MIN_CHAR_CLASSES
    &&& distinct_chars(s) >= MIN_UNIQUE_CHARS
}

/// Whether `s` is one of the well-known example values, in any mix of upper and lower case.
pub open spec fn is_placeholder(s: Seq<char>) -> bool {
    ||| eq_ignore_ascii_case(s, "CHANGE_ME_OR_APP_WILL_FAIL"@)
    ||| eq_ignore_ascii_case(s, "your-super-secret-jwt-key-min-32-chars-change-me-in-production"@)
    ||| eq_ignore_ascii_case(s, "PLEASE-SET-THIS-VIA-DOCKER-COMPOSE-ENV"@)
}

/// The number that stands for a character in the set of those seen: vstd gives hashing
/// of integers a model, and none to hashing of characters.
pub open spec fn char_code(c: char) -> u32 {
    c as u32
}

/// The numbers that stand for the characters of a text.
pub open spec fn codes_of(s: Seq<char>) -> Set<u32> {
    Set::new(|code: u32| exists|k: int| 0 <= k < s.len() && char_code(#[trigger] s[k]) == code)
}

/// A text has as many different characters as there are numbers that stand for them.
pub proof fn lemma_codes_count(s: Seq<char>)
    ensures
        codes_of(s).finite(),
        codes_of(s).len() == distinct_chars(s),
{
    let code = |c: char| char_code(c);
    assert(s.to_set().map(code) =~= codes_of(s)) by {
        assert forall|x: u32| s.to_set().map(code).contains(x) implies codes_of(s).contains(x) by {
            let c = choose|c: char| s.to_set().contains(c) && x == code(c);
            let k = choose|k: int| 0 <= k < s.len() && s[k] == c;
            assert(char_code(s[k]) == x);
        }
        assert forall|x: u32| codes_of(s).contains(x) implies s.to_set().map(code).contains(x) by {
            let k = choose|k: int| 0 <= k < s.len() && char_code(#[trigger] s[k]) == x;
            assert(s.to_set().contains(s[k]) && x == code(s[k]));
        }
    }
    assert(vstd::relations::injective_on(code, s.to_set())) by {
        assert forall|a: char, b: char| #[trigger] code(a) == #[trigger] code(b) implies a == b by {
            vstd::utf8::char_u32_cast(a, a as u32);
            vstd::utf8::char_u32_cast(b, b as u32);
        }
    }
    vstd::seq_lib::seq_to_set_is_finite(s);
    vstd::set_lib::lemma_map_size(s.to_set(), codes_of(s), code);
}

/// Counts the different characters of a text.
pub fn count_distinct(chars: &[char]) -> (n: usize)
    ensures
        n == distinct_chars(chars@),
{
    broadcast use vstd::std_specs::hash::group_hash_axioms;

    let mut seen: HashSet<u32> = HashSet::new();
    let mut i: usize = 0;
    assert(seen@ =~= codes_of(chars@.take(0)));
    while i < chars.len()
        invariant
            i <= chars.len(),
            seen@ == codes_of(chars@.take(i as int)),
        decreases chars.len() - i,
    {
        let c = chars[i];
        let ghost before = seen@;
        seen.insert(c as u32);
        proof {
            let shorter = chars@.take(i as int);
            let longer = chars@.take(i + 1);
            assert(longer[i as int] == c);
            assert forall|x: u32| before.insert(char_code(c)).contains(x) implies codes_of(longer).contains(
                x,
            ) by {
                if x == char_code(c) {
                    assert(char_code(longer[i as int]) == x);
                } else {
                    let k = choose|k: int| 0 <= k < shorter.len() && char_code(#[trigger] shorter[k]) == x;
                    assert(longer[k] == shorter[k]);
                }
            }
            assert forall|x: u32| codes_of(longer).contains(x) implies before.insert(char_code(c)).contains(
                x,
            ) by {
                let k = choose|k: int| 0 <= k < longer.len() && char_code(#[trigger] longer[k]) == x;
                if k < i {
                    assert(shorter[k] == longer[k]);
                }
            }
            assert(seen@ =~= codes_of(longer));
        }
        i += 1;
    }
    proof {
        assert(chars@.take(chars.len() as int) =~= chars@);
        lemma_codes_count(chars@);
    }
    seen.len()
}

/// Whether a text meets what is asked of a token-signing secret.
pub fn secret_has_min_entropy(secret: &str) -> (ok: bool)
    ensures
        ok == has_min_entropy(secret@),
{
    let chars = chars_of(secret);
    chars_have_min_entropy(chars.as_slice())
}

/// Counts the character classes that occur in a text.
pub fn count_classes(chars: &[char]) -> (n: usize)
    ensures
        n == class_count(chars@),
{
    let mut lower = false;
    let mut upper = false;
    let mut digit = false;
    let mut symbol = false;
    let mut i: usize = 0;
    while i < chars.len()
        invariant
            i <= chars.len(),
            lower == has_lower(chars@.take(i as int)),
            upper == has_upper(chars@.take(i as int)),
            digit == has_digit(chars@.take(i as int)),
            symbol == has_symbol(chars@.take(i as int)),
        decreases chars.len() - i,
    {
        let c = chars[i];
        proof {
            let shorter = chars@.take(i as int);
            let longer = chars@.take(i + 1);
            assert(longer[i as int] == c);
            assert forall|k: int| 0 <= k < shorter.len() implies shorter[k] == longer[k] by {}
            if has_lower(longer) && !is_ascii_lower(c) {
                let k = choose|k: int| 0 <= k < longer.len() && is_ascii_lower(#[trigger] longer[k]);
                assert(is_ascii_lower(shorter[k]));
            }
            if has_upper(longer) && !is_ascii_upper(c) {
                let k = choose|k: int| 0 <= k < longer.len() && is_ascii_upper(#[trigger] longer[k]);
                assert(is_ascii_upper(shorter[k]));
            }
            if has_digit(longer) && !is_ascii_digit(c) {
                let k = choose|k: int| 0 <= k < longer.len() && is_ascii_digit(#[trigger] longer[k]);
                assert(is_ascii_digit(shorter[k]));
            }
            if has_symbol(longer) && is_ascii_alnum(c) {
                let k = choose|k: int| 0 <= k < longer.len() && !is_ascii_alnum(#[trigger] longer[k]);
                assert(!is_ascii_alnum(shorter[k]));
            }
            if has_lower(shorter) {
                let k = choose|k: int| 0 <= k < shorter.len() && is_ascii_lower(#[trigger] shorter[k]);
                assert(is_ascii_lower(longer[k]));
            }
            if has_upper(shorter) {
                let k = choose|k: int| 0 <= k < shorter.len() && is_ascii_upper(#[trigger] shorter[k]);
                assert(is_ascii_upper(longer[k]));
            }
            if has_digit(shorter) {
                let k = choose|k: int| 0 <= k < shorter.len() && is_ascii_digit(#[trigger] shorter[k]);
                assert(is_ascii_digit(longer[k]));
            }
            if has_symbol(shorter) {
                let k = choose|k: int| 0 <= k < shorter.len() && !is_ascii_alnum(#[trigger] shorter[k]);
                assert(!is_ascii_alnum(longer[k]));
            }
        }
        if char_is_ascii_lower(c) {
            lower = true;
        }
        if char_is_ascii_upper(c) {
            upper = true;
        }
        if char_is_ascii_digit(c) {
            digit = true;
        }
        if !char_is_ascii_alnum(c) {
            symbol = true;
        }
        i += 1;
    }
    assert(chars@.take(chars.len() as int) =~= chars@);
    let mut classes: usize = 0;
    if lower {
        classes += 1;
    }
    if upper {
        classes += 1;
    }
    if digit {
        classes += 1;
    }
    if symbol {
        classes += 1;
    }
    classes
}

fn chars_have_min_entropy(chars: &[char]) -> (ok: bool)
    ensures
        ok == has_min_entropy(chars@),
{
    if chars.len() < MIN_SECRET_LENGTH {
        return false;
    }
    if count_classes(chars) < MIN_CHAR_CLASSES {
        return false;
    }
    count_distinct(chars) >= MIN_UNIQUE_CHARS
}

/// Which secret a failure is about.
#[derive(Clone, Copy, Debug, PartialEq, Eq, Structural)]
pub enum SecretKind {
    /// The secret that signs identity tokens.
    Jwt,
    /// The secret that signs anti-forgery tokens.
    Csrf,
    /// The salt that hides login identifiers.
    LoginSalt,
}

/// Why a secret was not accepted.
#[derive(Clone, Copy, Debug, PartialEq, Eq, Structural)]
pub enum SecretError {
    /// No value was configured.
    NotSet(SecretKind),
    /// The value is empty or only whitespace.
    Empty,
    /// The value is a well-known example.
    Placeholder(SecretKind),
    /// The value is too short, too uniform or has too few character classes.
    LowEntropy,
    /// The value has fewer characters than required.
    TooShort(SecretKind),
    /// The value has fewer than ten different characters.
    TooFewUniqueChars(SecretKind),
    /// The secret was set before; it is set once.
    AlreadyInitialized(SecretKind),
    /// The password of the administrator to create has fewer than twelve characters.
    AdminPasswordTooShort,
}

impl SecretError {
    /// The text shown to the operator at start-up.
    pub fn message(&self) -> (text: &'static str)
        ensures
            text@ == secret_error_text(*self),
    {
        match self {
            SecretError::NotSet(SecretKind::Jwt) => "JWT_SECRET environment variable not set",
            SecretError::NotSet(SecretKind::Csrf) => "CSRF_SECRET environment variable not set",
            SecretError::NotSet(SecretKind::LoginSalt) => "LOGIN_ATTEMPT_SALT environment variable not set",
            SecretError::Empty => "JWT_SECRET cannot be empty or whitespace",
            SecretError::Placeholder(SecretKind::Jwt) => "JWT_SECRET uses a known placeholder value. Generate a fresh random secret (e.g. `openssl rand -base64 48)`.",
            SecretError::Placeholder(SecretKind::Csrf) => "CSRF_SECRET uses a known placeholder value. Generate a fresh random secret (e.g. `openssl rand -base64 48)`.",
            SecretError::Placeholder(SecretKind::LoginSalt) => "LOGIN_ATTEMPT_SALT uses a known placeholder value. Generate a fresh random secret (e.g. `openssl rand -base64 48)`.",
            SecretError::LowEntropy => "JWT_SECRET must be a high-entropy value (~256 bits). Use a cryptographically random string of at least 43 characters mixing upper, lower, digits, and symbols.",
            SecretError::TooShort(SecretKind::Jwt) => "JWT_SECRET must be at least 43 characters long",
            SecretError::TooShort(SecretKind::Csrf) => "CSRF_SECRET must be at least 32 characters long",
            SecretError::TooShort(SecretKind::LoginSalt) => "LOGIN_ATTEMPT_SALT must be at least 32 characters long",
            SecretError::TooFewUniqueChars(SecretKind::Jwt) => "JWT_SECRET must contain at least 10 unique characters",
            SecretError::TooFewUniqueChars(SecretKind::Csrf) => "CSRF_SECRET must contain at least 10 unique characters",
            SecretError::TooFewUniqueChars(SecretKind::LoginSalt) => "LOGIN_ATTEMPT_SALT must contain at least 10 unique characters",
            SecretError::AlreadyInitialized(SecretKind::Jwt) => "JWT_SECRET already initialized",
            SecretError::AlreadyInitialized(SecretKind::Csrf) => "CSRF secret already initialized",
            SecretError::AlreadyInitialized(SecretKind::LoginSalt) => "LOGIN_ATTEMPT_SALT already initialized",
            SecretError::AdminPasswordTooShort => "ADMIN_PASSWORD must be at least 12 characters long",
        }
    }
}

/// The operator-facing text of each failure.
pub open spec fn secret_error_text(e: SecretError) -> Seq<char> {
    match e {
        SecretError::NotSet(SecretKind::Jwt) => "JWT_SECRET environment variable not set"@,
        SecretError::NotSet(SecretKind::Csrf) => "CSRF_SECRET environment variable not set"@,
        SecretError::NotSet(SecretKind::LoginSalt) => "LOGIN_ATTEMPT_SALT environment variable not set"@,
        SecretError::Empty => "JWT_SECRET cannot be empty or whitespace"@,
        SecretError::Placeholder(SecretKind::Jwt) => "JWT_SECRET uses a known placeholder value. Generate a fresh random secret (e.g. `openssl rand -base64 48)`."@,
        SecretError::Placeholder(SecretKind::Csrf) => "CSRF_SECRET uses a known placeholder value. Generate a fresh random secret (e.g. `openssl rand -base64 48)`."@,
        SecretError::Placeholder(SecretKind::LoginSalt) => "LOGIN_ATTEMPT_SALT uses a known placeholder value. Generate a fresh random secret (e.g. `openssl rand -base64 48)`."@,
        SecretError::LowEntropy => "JWT_SECRET must be a high-entropy value (~256 bits). Use a cryptographically random string of at least 43 characters mixing upper, lower, digits, and symbols."@,
        SecretError::TooShort(SecretKind::Jwt) => "JWT_SECRET must be at least 43 characters long"@,
        SecretError::TooShort(SecretKind::Csrf) => "CSRF_SECRET must be at least 32 characters long"@,
        SecretError::TooShort(SecretKind::LoginSalt) => "LOGIN_ATTEMPT_SALT must be at least 32 characters long"@,
        SecretError::TooFewUniqueChars(SecretKind::Jwt) => "JWT_SECRET must contain at least 10 unique characters"@,
        SecretError::TooFewUniqueChars(SecretKind::Csrf) => "CSRF_SECRET must contain at least 10 unique characters"@,
        SecretError::TooFewUniqueChars(SecretKind::LoginSalt) => "LOGIN_ATTEMPT_SALT must contain at least 10 unique characters"@,
        SecretError::AlreadyInitialized(SecretKind::Jwt) => "JWT_SECRET already initialized"@,
        SecretError::AlreadyInitialized(SecretKind::Csrf) => "CSRF secret already initialized"@,
        SecretError::AlreadyInitialized(SecretKind::LoginSalt) => "LOGIN_ATTEMPT_SALT already initialized"@,
        SecretError::AdminPasswordTooShort => "ADMIN_PASSWORD must be at least 12 characters long"@,
    }
}

/// What becomes of a configured token-signing secret: the checks, in the order in which
/// they are made. `already` says whether a secret is in place.
pub open spec fn jwt_secret_verdict(raw: Option<Seq<char>>, already: bool) -> Result<(), SecretError> {
    match raw {
        None => Err(SecretError::NotSet(SecretKind::Jwt)),
        Some(value) => {
            let trimmed = trim(value);
            if trimmed.len() == 0 {
                Err(SecretError::Empty)
            } else if is_placeholder(trimmed) {
                Err(SecretError::Placeholder(SecretKind::Jwt))
            } else if !has_min_entropy(trimmed) {
                Err(SecretError::LowEntropy)
            } else if already {
                Err(SecretError::AlreadyInitialized(SecretKind::Jwt))
            } else {
                Ok(())
            }
        },
    }
}

/// What becomes of a configured anti-forgery secret or login salt: the checks, in the
/// order in which they are made. A well-known example value is refused whatever its
/// length.
pub open spec fn shared_secret_verdict(kind: SecretKind, raw: Option<Seq<char>>, already: bool) -> Result<
    (),
    SecretError,
> {
    match raw {
        None => Err(SecretError::NotSet(kind)),
        Some(value) => {
            let trimmed = trim(value);
            if is_placeholder(trimmed) {
                Err(SecretError::Placeholder(kind))
            } else if trimmed.len() < MIN_SHARED_SECRET_LENGTH {
                Err(SecretError::TooShort(kind))
            } else if distinct_chars(trimmed) < MIN_UNIQUE_CHARS {
                Err(SecretError::TooFewUniqueChars(kind))
            } else if already {
                Err(SecretError::AlreadyInitialized(kind))
            } else {
                Ok(())
            }
        },
    }
}

/// The three secrets of one running service. Each starts unset and is set at most once.
pub struct SecretStore {
    jwt: Option<String>,
    csrf: Option<Vec<u8>>,
    login_salt: Option<String>,
}

impl SecretStore {
    /// The token-signing secret, once set.
    pub closed spec fn jwt(&self) -> Option<Seq<char>> {
        match self.jwt {
            Some(s) => Some(s@),
            None => None,
        }
    }

    /// The anti-forgery secret, once set, as bytes.
    pub closed spec fn csrf(&self) -> Option<Seq<u8>> {
        match self.csrf {
            Some(s) => Some(s@),
            None => None,
        }
    }

    /// The login salt, once set.
    pub closed spec fn login_salt(&self) -> Option<Seq<char>> {
        match self.login_salt {
            Some(s) => Some(s@),
            None => None,
        }
    }

    /// A store with no secret set.
    pub fn new() -> (store: SecretStore)
        ensures
            store.jwt() is None,
            store.csrf() is None,
            store.login_salt() is None,
    {
        SecretStore { jwt: None, csrf: None, login_salt: None }
    }
}

/// Checks a configured token-signing secret and, if it passes and none is in place,
/// stores it with the whitespace around it removed. A refused value changes nothing.
pub fn init_jwt_secret(store: &mut SecretStore, raw: Option<&str>) -> (r: Result<(), SecretError>)
    ensures
        r == jwt_secret_verdict(text_of(raw), old(store).jwt() is Some),
        r is Ok ==> final(store).jwt() == Some(trim(raw.unwrap()@)),
        r is Err ==> final(store).jwt() == old(store).jwt(),
        final(store).csrf() == old(store).csrf(),
        final(store).login_salt() == old(store).login_salt(),
{
    let value = match raw {
        Some(value) => value,
        None => {
            return Err(SecretError::NotSet(SecretKind::Jwt));
        },
    };
    let chars = chars_of(value);
    let trimmed = trim_chars(chars.as_slice());
    if trimmed.len() == 0 {
        return Err(SecretError::Empty);
    }
    if chars_are_placeholder(trimmed.as_slice()) {
        return Err(SecretError::Placeholder(SecretKind::Jwt));
    }
    if !chars_have_min_entropy(trimmed.as_slice()) {
        return Err(SecretError::LowEntropy);
    }
    if store.jwt.is_some() {
        return Err(SecretError::AlreadyInitialized(SecretKind::Jwt));
    }
    store.jwt = Some(string_of(trimmed.as_slice()));
    Ok(())
}

fn chars_are_placeholder(chars: &[char]) -> (r: bool)
    ensures
        r == is_placeholder(chars@),
{
    let first = chars_of("CHANGE_ME_OR_APP_WILL_FAIL");
    let second = chars_of("your-super-secret-jwt-key-min-32-chars-change-me-in-production");
    let third = chars_of("PLEASE-SET-THIS-VIA-DOCKER-COMPOSE-ENV");
    chars_eq_ignore_ascii_case(chars, first.as_slice()) || chars_eq_ignore_ascii_case(
        chars,
        second.as_slice(),
    ) || chars_eq_ignore_ascii_case(chars, third.as_slice())
}

fn check_shared_secret(kind: SecretKind, raw: Option<&str>, already: bool) -> (r: Result<
    Vec<char>,
    SecretError,
>)
    ensures
        match r {
            Ok(trimmed) => shared_secret_verdict(kind, text_of(raw), already) is Ok && trimmed@ == trim(
                raw.unwrap()@,
            ),
            Err(e) => shared_secret_verdict(kind, text_of(raw), already) == Err::<(), SecretError>(e),
        },
{
    let value = match raw {
        Some(value) => value,
        None => {
            return Err(SecretError::NotSet(kind));
        },
    };
    let chars = chars_of(value);
    let trimmed = trim_chars(chars.as_slice());
    if chars_are_placeholder(trimmed.as_slice()) {
        return Err(SecretError::Placeholder(kind));
    }
    if trimmed.len() < MIN_SHARED_SECRET_LENGTH {
        return Err(SecretError::TooShort(kind));
    }
    if count_distinct(trimmed.as_slice()) < MIN_UNIQUE_CHARS {
        return Err(SecretError::TooFewUniqueChars(kind));
    }
    if already {
        return Err(SecretError::AlreadyInitialized(kind));
    }
    Ok(trimmed)
}

/// Checks a configured anti-forgery secret and, if it passes and none is in place, stores
/// the bytes of its trimmed text. A refused value changes nothing.
pub fn init_csrf_secret(store: &mut SecretStore, raw: Option<&str>) -> (r: Result<(), SecretError>)
    ensures
        r == shared_secret_verdict(SecretKind::Csrf, text_of(raw), old(store).csrf() is Some),
        r is Ok ==> final(store).csrf() == Some(vstd::utf8::encode_utf8(trim(raw.unwrap()@))),
        r is Err ==> final(store).csrf() == old(store).csrf(),
        final(store).jwt() == old(store).jwt(),
        final(store).login_salt() == old(store).login_salt(),
{
    match check_shared_secret(SecretKind::Csrf, raw, store.csrf.is_some()) {
        Ok(trimmed) => {
            let text = string_of(trimmed.as_slice());
            store.csrf = Some(text.as_str().as_bytes_vec());
            Ok(())
        },
        Err(e) => Err(e),
    }
}

/// Checks a configured login salt and, if it passes and none is in place, stores its
/// trimmed text. A refused value changes nothing.
pub fn init_login_attempt_salt(store: &mut SecretStore, raw: Option<&str>) -> (r: Result<
    (),
    SecretError,
>)
    ensures
        r == shared_secret_verdict(SecretKind::LoginSalt, text_of(raw), old(store).login_salt() is Some),
        r is Ok ==> final(store).login_salt() == Some(trim(raw.unwrap()@)),
        r is Err ==> final(store).login_salt() == old(store).login_salt(),
        final(store).jwt() == old(store).jwt(),
        final(store).csrf() == old(store).csrf(),
{
    match check_shared_secret(SecretKind::LoginSalt, raw, store.login_salt.is_some()) {
        Ok(trimmed) => {
            store.login_salt = Some(string_of(trimmed.as_slice()));
            Ok(())
        },
        Err(e) => Err(e),
    }
}

/// Whether the token-signing secret has been set.
pub fn has_jwt_secret(store: &SecretStore) -> (set: bool)
    ensures
        set == (store.jwt() is Some),
{
    store.jwt.is_some()
}

/// Whether the anti-forgery secret has been set.
pub fn has_csrf_secret(store: &SecretStore) -> (set: bool)
    ensures
        set == (store.csrf() is Some),
{
    store.csrf.is_some()
}

/// Whether the login salt has been set.
pub fn has_login_attempt_salt(store: &SecretStore) -> (set: bool)
    ensures
        set == (store.login_salt() is Some),
{
    store.login_salt.is_some()
}

/// The token-signing secret. Reading it before it was set is a programming error.
pub fn get_jwt_secret(store: &SecretStore) -> (secret: &str)
    requires
        store.jwt() is Some,
    ensures
        Some(secret@) == store.jwt(),
{
    match &store.jwt {
        Some(secret) => secret.as_str(),
        None => "",
    }
}

/// The anti-forgery secret. Reading it before it was set is a programming error.
pub fn get_secret(store: &SecretStore) -> (secret: &[u8])
    requires
        store.csrf() is Some,
    ensures
        Some(secret@) == store.csrf(),
{
    match &store.csrf {
        Some(secret) => secret.as_slice(),
        None => &[],
    }
}

/// The login salt. Reading it before it was set is a programming error.
pub fn login_attempt_salt(store: &SecretStore) -> (salt: &str)
    requires
        store.login_salt() is Some,
    ensures
        Some(salt@) == store.login_salt(),
{
    match &store.login_salt {
        Some(salt) => salt.as_str(),
        None => "",
    }
}

/// Fewest characters of the password of an administrator created at start-up.
pub const MIN_ADMIN_PASSWORD_LENGTH: usize = 12;

/// What start-up does about the administrator account, given the configured name and
/// password: nothing unless both are set and not empty, a refusal where the password is
/// too short, and else an account to make sure of.
pub open spec fn admin_bootstrap_plan(username: Option<Seq<char>>, password: Option<Seq<char>>) -> Result<
    Option<(Seq<char>, Seq<char>)>,
    SecretError,
> {
    if username is Some && password is Some && username.unwrap().len() > 0 && password.unwrap().len()
        > 0 {
        if password.unwrap().len() < MIN_ADMIN_PASSWORD_LENGTH {
            Err(SecretError::AdminPasswordTooShort)
        } else {
            Ok(Some((username.unwrap(), password.unwrap())))
        }
    } else {
        Ok(None)
    }
}

/// Decides what start-up does about the administrator account.
pub fn plan_admin_bootstrap(username: Option<&str>, password: Option<&str>) -> (r: Result<
    Option<(String, String)>,
    SecretError,
>)
    ensures
        match r {
            Ok(Some((name, secret))) => admin_bootstrap_plan(text_of(username), text_of(password)) == Ok::<
                Option<(Seq<char>, Seq<char>)>,
                SecretError,
            >(Some((name@, secret@))),
            Ok(None) => admin_bootstrap_plan(text_of(username), text_of(password)) == Ok::<
                Option<(Seq<char>, Seq<char>)>,
                SecretError,
            >(None),
            Err(e) => admin_bootstrap_plan(text_of(username), text_of(password)) == Err::<
                Option<(Seq<char>, Seq<char>)>,
                SecretError,
            >(e),
        },
{
    match username {
        Some(name) => match password {
            Some(secret) => {
                if name.is_empty() || secret.is_empty() {
                    return Ok(None);
                }
                let chars = chars_of(secret);
                if chars.len() < MIN_ADMIN_PASSWORD_LENGTH {
                    return Err(SecretError::AdminPasswordTooShort);
                }
                Ok(Some((name.to_owned(), secret.to_owned())))
            },
            None => Ok(None),
        },
        None => Ok(None),
    }
}

/// A value that trims to fewer than thirty-two characters is refused as any of the
/// three secrets, whether or not one is in place.
pub proof fn lemma_short_secret_rejected(raw: Seq<char>, kind: SecretKind, already: bool)
    requires
        trim(raw).len() < MIN_SHARED_SECRET_LENGTH,
    ensures
        jwt_secret_verdict(Some(raw), already) is Err,
        shared_secret_verdict(kind, Some(raw), already) is Err,
{
}

/// A value with fewer than ten different characters is refused as any of the three
/// secrets, however long it is.
pub proof fn lemma_uniform_secret_rejected(raw: Seq<char>, kind: SecretKind, already: bool)
    requires
        distinct_chars(trim(raw)) < MIN_UNIQUE_CHARS,
    ensures
        jwt_secret_verdict(Some(raw), already) is Err,
        shared_secret_verdict(kind, Some(raw), already) is Err,
{
}

/// The best-known example value is refused as any of the three secrets.
pub proof fn lemma_example_secret_rejected(kind: SecretKind, already: bool)
    ensures
        jwt_secret_verdict(Some("CHANGE_ME_OR_APP_WILL_FAIL"@), already) is Err,
        shared_secret_verdict(kind, Some("CHANGE_ME_OR_APP_WILL_FAIL"@), already) is Err,
{
    reveal_strlit("CHANGE_ME_OR_APP_WILL_FAIL");
    let raw = "CHANGE_ME_OR_APP_WILL_FAIL"@;
    assert(raw.len() == 26);
    lemma_trim_shorter(raw);
    lemma_short_secret_rejected(raw, kind, already);
}

/// A well-known example value is refused as any of the three secrets, in any mix of
/// upper and lower case and with any whitespace around it.
pub proof fn lemma_placeholder_rejected(raw: Seq<char>, kind: SecretKind, already: bool)
    requires
        is_placeholder(trim(raw)),
    ensures
        jwt_secret_verdict(Some(raw), already) is Err,
        shared_secret_verdict(kind, Some(raw), already) == Err::<(), SecretError>(
            SecretError::Placeholder(kind),
        ),
{
}

/// A secret in place is never replaced: with one set, every further value is refused.
pub proof fn lemma_secret_set_once(raw: Option<Seq<char>>, kind: SecretKind)
    ensures
        jwt_secret_verdict(raw, true) is Err,
        shared_secret_verdict(kind, raw, true) is Err,
{
}

} // verus!
