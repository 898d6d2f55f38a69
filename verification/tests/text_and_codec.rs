use uds::json::quote;
use uds::text::{decimal_string, digit, hex_lower_string, split_words, white_space};

#[test]
fn decimal_numerals() {
    assert_eq!(decimal_string(0), "0");
    assert_eq!(decimal_string(7), "7");
    assert_eq!(decimal_string(10), "10");
    assert_eq!(decimal_string(1000000), "1000000");
    assert_eq!(decimal_string(usize::MAX), usize::MAX.to_string());
}

#[test]
fn decimal_matches_to_string() {
    for n in [1usize, 9, 99, 100, 12345, 4294967295, 999999999999] {
        assert_eq!(decimal_string(n), n.to_string());
    }
}

#[test]
fn digits() {
    assert_eq!(digit(0), '0');
    assert_eq!(digit(9), '9');
    assert_eq!(digit(10), 'a');
    assert_eq!(digit(15), 'f');
}

#[test]
fn hex_of_bytes() {
    assert_eq!(hex_lower_string(&[]), "");
    assert_eq!(hex_lower_string(&[0x00, 0xab, 0x10, 0xff]), "00ab10ff");
}

#[test]
fn hex_matches_md5_lower_hex() {
    let digest = md5::compute(b"hello");
    assert_eq!(hex_lower_string(&digest.0), format!("{:x}", digest));
}

#[test]
fn words_split_on_white_space() {
    assert_eq!(split_words("  a\tb  c "), vec!["a", "b", "c"]);
    assert_eq!(split_words(""), Vec::<String>::new());
    assert_eq!(split_words("x\u{3000}y\u{85}z"), vec!["x", "y", "z"]);
    let line = "GET /?code=1 HTTP/1.1\r\n";
    let expected: Vec<String> = line.split_whitespace().map(|w| w.to_owned()).collect();
    assert_eq!(split_words(line), expected);
}

#[test]
fn white_space_agrees_with_std() {
    for c in ['\t', '\n', '\u{b}', '\u{c}', '\r', ' ', '\u{85}', '\u{a0}', '\u{1680}', '\u{2000}',
        '\u{200a}', '\u{2028}', '\u{2029}', '\u{202f}', '\u{205f}', '\u{3000}', 'a', '\u{200b}', '\u{1f}', 'é'] {
        assert_eq!(white_space(c), c.is_whitespace(), "{:?}", c);
    }
}

#[test]
fn quoting_escapes_like_serde_json() {
    assert_eq!(quote("UDS root"), "\"UDS root\"");
    assert_eq!(quote("a\"b\\c\n\u{1}é"), "\"a\\\"b\\\\c\\n\\u0001é\"");
    assert_eq!(quote("\u{8}\u{c}\r\t\u{1f}/"), "\"\\b\\f\\r\\t\\u001f/\"");
}

#[test]
fn quoted_text_reads_back() {
    let s = "tab\there \"quoted\" back\\slash \u{7} ünïcode";
    let back: String = serde_json::from_str(&quote(s)).unwrap();
    assert_eq!(back, s);
}
