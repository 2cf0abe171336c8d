use sigchain::json::{push_digits, push_i32, push_quoted};

fn digits(n: u64) -> String {
    let mut out = String::new();
    push_digits(&mut out, n);
    out
}

fn number(v: i32) -> String {
    let mut out = String::new();
    push_i32(&mut out, v);
    out
}

fn quoted(s: &str) -> String {
    let mut out = String::new();
    push_quoted(&mut out, s);
    out
}

#[test]
fn digits_of_naturals() {
    assert_eq!(digits(0), "0");
    assert_eq!(digits(7), "7");
    assert_eq!(digits(9), "9");
    assert_eq!(digits(10), "10");
    assert_eq!(digits(109), "109");
    assert_eq!(digits(1234567890), "1234567890");
    assert_eq!(digits(u64::MAX), "18446744073709551615");
}

#[test]
fn digits_are_appended() {
    let mut out = String::from("n=");
    push_digits(&mut out, 42);
    push_digits(&mut out, 0);
    assert_eq!(out, "n=420");
}

#[test]
fn digits_agree_with_serde_json() {
    for n in [0u64, 1, 9, 10, 11, 99, 100, 101, 65535, 4294967296, u64::MAX - 1, u64::MAX] {
        assert_eq!(digits(n), serde_json::to_string(&n).unwrap());
    }
}

#[test]
fn numbers_with_sign() {
    assert_eq!(number(0), "0");
    assert_eq!(number(5), "5");
    assert_eq!(number(-5), "-5");
    assert_eq!(number(-10), "-10");
    assert_eq!(number(i32::MAX), "2147483647");
    assert_eq!(number(i32::MIN), "-2147483648");
    for v in [-1000001, -1, 0, 1, 999, 1000, i32::MIN + 1] {
        assert_eq!(number(v), serde_json::to_string(&v).unwrap());
    }
}

#[test]
fn numbers_are_appended() {
    let mut out = String::from("[");
    push_i32(&mut out, -3);
    out.push(',');
    push_i32(&mut out, 30);
    assert_eq!(out, "[-3,30");
}

#[test]
fn plain_text_is_put_between_quotes() {
    assert_eq!(quoted(""), "\"\"");
    assert_eq!(quoted("abc"), "\"abc\"");
    assert_eq!(quoted("a b/c'd"), "\"a b/c'd\"");
    assert_eq!(quoted("\u{e9}\u{20ac}\u{1f600}"), "\"\u{e9}\u{20ac}\u{1f600}\"");
    assert_eq!(quoted("\u{7f}\u{80}"), "\"\u{7f}\u{80}\"");
}

#[test]
fn quotes_backslashes_and_control_characters_are_escaped() {
    assert_eq!(quoted("\""), "\"\\\"\"");
    assert_eq!(quoted("\\"), "\"\\\\\"");
    assert_eq!(quoted("\u{8}\t\n\u{c}\r"), "\"\\b\\t\\n\\f\\r\"");
    assert_eq!(quoted("\u{0}"), "\"\\u0000\"");
    assert_eq!(quoted("\u{1}\u{7}\u{b}\u{e}\u{f}"), "\"\\u0001\\u0007\\u000b\\u000e\\u000f\"");
    assert_eq!(quoted("\u{10}\u{1a}\u{1f} "), "\"\\u0010\\u001a\\u001f \"");
    assert_eq!(quoted("a\"b\\c\nd"), "\"a\\\"b\\\\c\\nd\"");
}

#[test]
fn quoted_text_is_appended() {
    let mut out = String::from("{\"k\":");
    push_quoted(&mut out, "v");
    assert_eq!(out, "{\"k\":\"v\"");
}

#[test]
fn quoted_text_reads_back() {
    for text in ["", "plain", "q\"uote", "back\\slash", "ctl\u{1}\u{1f}\n\t", "\u{2713} ok"] {
        let read: String = serde_json::from_str(&quoted(text)).unwrap();
        assert_eq!(read, text);
    }
}
