use blog_backend::clock::{current_unix_time, parse_rfc3339_opt, rfc3339_after};
use blog_backend::crypto::hex_encode;
use blog_backend::text::{
    chars_eq_ignore_ascii_case, chars_of, chars_start_with, find_char, format_i64, lower_chars,
    parse_i64_chars, split_chars, str_eq, string_of, trim_chars,
};

fn chars(s: &str) -> Vec<char> {
    s.chars().collect()
}

#[test]
fn text_round_trips_through_characters() {
    for s in ["", "abc", "äöü €", "a\u{10ffff}b"] {
        assert_eq!(chars_of(s), chars(s));
        assert_eq!(string_of(&chars(s)), s);
    }
    assert!(str_eq("abc", "abc"));
    assert!(!str_eq("abc", "abd"));
    assert!(!str_eq("abc", "ab"));
    assert!(str_eq("", ""));
}

#[test]
fn trimming_matches_the_standard_library() {
    for s in [
        "",
        " ",
        "abc",
        "  abc  ",
        "\t\n abc def \r\n",
        "\u{a0}x\u{3000}",
        "\u{2000}\u{200a}x y\u{2028}\u{2029}\u{202f}\u{205f}\u{1680}\u{85}",
        "\u{200b}x\u{200b}",
        "\u{b}\u{c}x",
        " \u{1c}x ",
    ] {
        assert_eq!(string_of(&trim_chars(&chars(s))), s.trim(), "{:?}", s);
    }
}

#[test]
fn case_folding_is_ascii_only() {
    assert_eq!(string_of(&lower_chars(&chars("AbC-ÄZ[@`{"))), "abc-Äz[@`{");
    assert!(chars_eq_ignore_ascii_case(&chars("Bearer"), &chars("bEARER")));
    assert!(!chars_eq_ignore_ascii_case(&chars("Bearer"), &chars("Bearer ")));
    assert!(!chars_eq_ignore_ascii_case(&chars("ä"), &chars("Ä")));
    assert!(!chars_eq_ignore_ascii_case(&chars("@"), &chars("`")));
    assert!(chars_eq_ignore_ascii_case(&chars(""), &chars("")));
}

#[test]
fn splitting_matches_the_standard_library() {
    for s in ["", "a", "|", "a|b", "a||b", "|a|", "v1|x|1|n|s", "||"] {
        let pieces: Vec<String> = split_chars(&chars(s), '|').iter().map(|p| string_of(p)).collect();
        let expected: Vec<String> = s.split('|').map(|p| p.to_string()).collect();
        assert_eq!(pieces, expected, "{:?}", s);
    }
}

#[test]
fn prefixes_and_positions() {
    assert!(chars_start_with(&chars("/api/public/x"), &chars("/api/public/")));
    assert!(chars_start_with(&chars("abc"), &chars("")));
    assert!(chars_start_with(&chars("abc"), &chars("abc")));
    assert!(!chars_start_with(&chars("ab"), &chars("abc")));
    assert!(!chars_start_with(&chars("abd"), &chars("abc")));
    assert_eq!(find_char(&chars("a b c"), ' '), 1);
    assert_eq!(find_char(&chars("abc"), ' '), 3);
    assert_eq!(find_char(&chars(""), ' '), 0);
}

#[test]
fn numbers_are_written_as_the_standard_library_writes_them() {
    for n in [0, 1, -1, 9, 10, 12345, -12345, 1_700_021_600, i64::MAX, i64::MIN, i64::MIN + 1] {
        assert_eq!(string_of(&format_i64(n)), n.to_string());
    }
}

#[test]
fn numbers_are_read_as_the_standard_library_reads_them() {
    for s in [
        "0",
        "1",
        "-1",
        "+1",
        "007",
        "-0",
        "+0",
        "9223372036854775807",
        "9223372036854775808",
        "-9223372036854775808",
        "-9223372036854775809",
        "+9223372036854775807",
        "00000000000000000000000000001",
        "99999999999999999999999999999",
        "",
        "+",
        "-",
        "--1",
        "+-1",
        "1-",
        " 1",
        "1 ",
        "1_000",
        "1.0",
        "0x10",
        "١",
        "abc",
    ] {
        assert_eq!(parse_i64_chars(&chars(s)), s.parse::<i64>().ok(), "{:?}", s);
    }
}

#[test]
fn bytes_are_written_in_lower_case_hex() {
    assert_eq!(hex_encode(&[]), "");
    assert_eq!(hex_encode(&[0x00, 0x0f, 0x10, 0xab, 0xff, 0x9a]), "000f10abff9a");
}

#[test]
fn stored_timestamps_are_read_and_written() {
    assert_eq!(parse_rfc3339_opt(&None), None);
    assert_eq!(parse_rfc3339_opt(&Some("not a time".to_string())), None);
    assert_eq!(parse_rfc3339_opt(&Some("1970-01-01T00:00:00Z".to_string())), Some(0));
    assert_eq!(parse_rfc3339_opt(&Some("2023-11-14T22:13:20+00:00".to_string())), Some(1_700_000_000));
    assert_eq!(parse_rfc3339_opt(&Some("2023-11-15T00:13:20.75+02:00".to_string())), Some(1_700_000_000));
    assert_eq!(rfc3339_after(1_700_000_000, 60), Some("2023-11-14T22:14:20+00:00".to_string()));
    assert_eq!(rfc3339_after(0, 10), Some("1970-01-01T00:00:10+00:00".to_string()));
    assert_eq!(rfc3339_after(i64::MAX, 1), None);
    assert_eq!(rfc3339_after(i64::MAX - 1, 1), None);
    let text = rfc3339_after(1_700_000_000, 10);
    assert_eq!(parse_rfc3339_opt(&text), Some(1_700_000_010));
}

#[test]
fn the_clock_is_after_2023() {
    let now = current_unix_time();
    assert!(now > 1_700_000_000);
    assert!(now <= 10_000_000_000_000);
}
