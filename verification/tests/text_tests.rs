use qwen_image_studio::download::{etag_sha, Checksum};
use qwen_image_studio::mcp::delivered;
use qwen_image_studio::text::{
    chars_of, concat_str, contains_str, decimal_string, first_line_chars, is_whitespace, join_with,
    parse_u64_chars, split_once_char, str_eq, string_of, trim_chars,
};

fn parse(s: &str) -> Option<u64> {
    parse_u64_chars(&chars_of(s))
}

#[test]
fn decimal_formatting() {
    assert_eq!(decimal_string(0), "0");
    assert_eq!(decimal_string(7860), "7860");
    assert_eq!(decimal_string(u64::MAX), "18446744073709551615");
}

#[test]
fn parsing_matches_from_str() {
    for s in ["0", "42", "+42", "007", "18446744073709551615", "18446744073709551616", "", "+", "-1", "1 2", "4a", "١٢"] {
        assert_eq!(parse(s), s.parse::<u64>().ok(), "input {s:?}");
    }
}

#[test]
fn trimming_matches_str_trim() {
    for s in ["  a b  ", "\t\n x\r\n", "", "   ", "\u{3000}y\u{a0}", "z"] {
        let t = string_of(&trim_chars(&chars_of(s)));
        assert_eq!(t, s.trim());
    }
}

#[test]
fn whitespace_matches_char_is_whitespace() {
    for u in 0u32..0x3100 {
        if let Some(c) = char::from_u32(u) {
            assert_eq!(is_whitespace(c), c.is_whitespace(), "U+{u:04X}");
        }
    }
}

#[test]
fn first_line_matches_lines() {
    for s in ["a\nb", "a\r\nb", "a\r", "\n", "", "abc", "x\r\r\ny"] {
        let got = first_line_chars(&chars_of(s)).map(|v| string_of(&v));
        assert_eq!(got, s.lines().next().map(|l| l.to_string()), "input {s:?}");
    }
}

#[test]
fn split_and_contains() {
    let (a, b) = split_once_char(&chars_of("k=v=w"), '=');
    assert_eq!(string_of(&a), "k");
    assert_eq!(b.map(|v| string_of(&v)), Some("v=w".to_string()));
    let (a, b) = split_once_char(&chars_of("none"), '=');
    assert_eq!(string_of(&a), "none");
    assert!(b.is_none());
    assert!(contains_str("returned no results", "no results"));
    assert!(!contains_str("no", "no results"));
    assert!(contains_str("x", ""));
}

#[test]
fn strings_and_paths() {
    assert!(str_eq("abc", "abc"));
    assert!(!str_eq("abc", "abd"));
    assert_eq!(concat_str("Model ", "Q6_K"), "Model Q6_K");
    assert_eq!(join_with("/a", "b", '/'), "/a/b");
    assert_eq!(join_with("/a/", "b", '/'), "/a/b");
    assert_eq!(join_with("a\\", "b", '/'), "a\\/b");
    assert_eq!(join_with("a\\", "b", '\\'), "a\\b");
    assert_eq!(join_with("a/", "b", '\\'), "a/b");
    assert_eq!(join_with("a", "b", '\\'), "a\\b");
    assert_eq!(join_with("", "b", '/'), "b");
    assert_eq!(join_with("c:", "b", '\\'), "c:b");
    assert_eq!(join_with("1:", "b", '\\'), "1:\\b");
    assert_eq!(join_with("C:x", "b", '\\'), "C:x\\b");
    assert_eq!(etag_sha("MeMoRy ÄB"), "memory äb");
}

#[test]
fn sha256_hex_digest() {
    let mut c = Checksum::new();
    c.feed(b"a");
    c.feed(b"bc");
    assert_eq!(c.hex(), "ba7816bf8f01cfea414140de5dae2223b00361a396177a9cb410ff61f20015ad");
    assert_eq!(Checksum::new().hex(), "e3b0c44298fc1c149afbf4c8996fb92427ae41e4649b934ca495991b7852b855");
}

#[test]
fn delivered_image_is_base64() {
    let d = delivered(b"hello", "/o/a.png".to_string(), "cat".to_string(), 1024, 512, "12:30".to_string());
    assert_eq!(d.image, "aGVsbG8=");
    assert_eq!(d.item.path, "/o/a.png");
    assert_eq!(d.item.prompt, "cat");
    assert_eq!((d.item.width, d.item.height), (1024, 512));
    assert_eq!(d.item.at, "12:30");
}
