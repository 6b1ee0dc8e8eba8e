use lib::number::{decimal_string, parse_unsigned_chars};
use lib::text::{chars_of, find_chars, line_spans, trim_chars, wide, words_of};

fn chars(s: &str) -> Vec<char> {
    s.chars().collect()
}

fn parse(s: &str, max: u64) -> Option<u64> {
    parse_unsigned_chars(&chars(s), max)
}

#[test]
fn decimal_of_numbers() {
    assert_eq!(decimal_string(0), "0");
    assert_eq!(decimal_string(7), "7");
    assert_eq!(decimal_string(3080), "3080");
    assert_eq!(decimal_string(u128::MAX), "340282366920938463463374607431768211455");
}

#[test]
fn parse_accepts_plain_and_plus_prefixed_digits() {
    assert_eq!(parse("3080", 65535), Some(3080));
    assert_eq!(parse("+5", 65535), Some(5));
    assert_eq!(parse("007", 65535), Some(7));
    assert_eq!(parse("65535", 65535), Some(65535));
    assert_eq!(parse("18446744073709551615", u64::MAX), Some(u64::MAX));
}

#[test]
fn parse_refuses_what_str_parse_refuses() {
    assert_eq!(parse("", 65535), None);
    assert_eq!(parse("+", 65535), None);
    assert_eq!(parse("-5", 65535), None);
    assert_eq!(parse("65536", 65535), None);
    assert_eq!(parse(" 1", 65535), None);
    assert_eq!(parse("1x", 65535), None);
    assert_eq!(parse("18446744073709551616", u64::MAX), None);
}

#[test]
fn decimal_reads_back() {
    for n in [0u64, 1, 9, 10, 99, 100, 3080, 65535] {
        let text = decimal_string(n as u128);
        assert_eq!(parse(&text, 65535), Some(n));
    }
}

#[test]
fn chars_of_keeps_every_character() {
    assert_eq!(chars_of("a\u{e9}\u{1f600}"), vec!['a', '\u{e9}', '\u{1f600}']);
}

#[test]
fn trim_removes_unicode_whitespace() {
    let c = chars("\u{3000} \tkey = value\r\n\u{a0}");
    let t: String = trim_chars(&c).iter().collect();
    assert_eq!(t, "key = value");
    let empty = chars(" \t ");
    assert!(trim_chars(&empty).is_empty());
}

#[test]
fn find_gives_the_first_occurrence() {
    let hay = chars("a=b=c");
    assert_eq!(find_chars(&hay, &['=']), Some(1));
    assert_eq!(find_chars(&hay, &['x']), None);
    assert_eq!(find_chars(&hay, &[]), Some(0));
    assert_eq!(find_chars(&chars("dsh web: x"), &chars("web:")), Some(4));
}

#[test]
fn words_split_on_any_whitespace() {
    assert_eq!(words_of(&chars("  --no-open\t--verbose \u{2003}x ")), vec!["--no-open", "--verbose", "x"]);
    assert!(words_of(&chars("   ")).is_empty());
}

#[test]
fn lines_follow_str_lines() {
    let t = chars("a\r\nb\n\nc\r");
    let spans = line_spans(&t);
    let lines: Vec<String> = spans.iter().map(|&(a, b)| t[a..b].iter().collect()).collect();
    assert_eq!(lines, vec!["a", "b", "", "c\r"]);
    assert!(line_spans(&chars("")).is_empty());
    assert_eq!(line_spans(&chars("x\n")).len(), 1);
}

#[test]
fn wide_text_is_nul_terminated_utf16() {
    assert_eq!(wide("A"), vec![65, 0]);
    assert_eq!(wide(""), vec![0]);
    assert_eq!(wide("\u{1f600}"), vec![0xd83d, 0xde00, 0]);
    let expected: Vec<u16> = "Local\\dsh-launcher-single".encode_utf16().chain(std::iter::once(0)).collect();
    assert_eq!(wide("Local\\dsh-launcher-single"), expected);
}
