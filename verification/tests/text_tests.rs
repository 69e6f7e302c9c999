use hammerload::fields::{str_eq, Fields};
use hammerload::header::{parse_form_field, parse_header, Headers};
use hammerload::text::{decimal_string, ends_with, join, octet_count, rsplit_once, split_once, trim};

fn pair(a: &str, b: &str) -> Option<(String, String)> {
    Some((a.to_string(), b.to_string()))
}

#[test]
fn trim_removes_white_space_at_both_ends() {
    assert_eq!(trim("  value  "), "value");
    assert_eq!(trim("value"), "value");
    assert_eq!(trim("\t a b \n"), "a b");
    assert_eq!(trim("\u{a0}x\u{3000}"), "x");
    assert_eq!(trim("   "), "");
    assert_eq!(trim(""), "");
    assert_eq!(trim(" é "), "é");
}

#[test]
fn trim_agrees_with_the_standard_library() {
    for s in ["", " ", "a", " a", "a ", "  a  b  ", "\r\nx\u{2003}", "\u{85}y\u{1680}", "::"] {
        assert_eq!(trim(s), s.trim());
        assert_eq!(trim(&trim(s)), trim(s));
    }
}

#[test]
fn split_once_splits_at_the_first_separator() {
    assert_eq!(split_once("a:b:c", ':'), pair("a", "b:c"));
    assert_eq!(split_once(":b", ':'), pair("", "b"));
    assert_eq!(split_once("a:", ':'), pair("a", ""));
    assert_eq!(split_once("abc", ':'), None);
    assert_eq!(split_once("", ':'), None);
    assert_eq!(split_once("é=ü", '='), pair("é", "ü"));
}

#[test]
fn rsplit_once_splits_at_the_last_separator() {
    assert_eq!(rsplit_once("a.b.c", '.'), pair("a.b", "c"));
    assert_eq!(rsplit_once(".c", '.'), pair("", "c"));
    assert_eq!(rsplit_once("a.", '.'), pair("a", ""));
    assert_eq!(rsplit_once("abc", '.'), None);
}

#[test]
fn ends_with_compares_the_tail() {
    assert!(ends_with("service.proto", ".proto"));
    assert!(ends_with(".proto", ".proto"));
    assert!(!ends_with("proto", ".proto"));
    assert!(!ends_with("service.proto.bin", ".proto"));
    assert!(ends_with("anything", ""));
}

#[test]
fn decimal_string_writes_numbers() {
    assert_eq!(decimal_string(0), "0");
    assert_eq!(decimal_string(7), "7");
    assert_eq!(decimal_string(10), "10");
    assert_eq!(decimal_string(1_234_567_890), "1234567890");
    assert_eq!(decimal_string(u64::MAX), "18446744073709551615");
}

#[test]
fn join_and_octet_count() {
    assert_eq!(join("ab", "cd"), "abcd");
    assert_eq!(join("", ""), "");
    assert_eq!(octet_count(""), 0);
    assert_eq!(octet_count("abc"), 3);
    assert_eq!(octet_count("é€"), 5);
    assert!(str_eq("abc", "abc"));
    assert!(!str_eq("abc", "abd"));
    assert!(!str_eq("abc", "ab"));
}

#[test]
fn fields_bind_each_name_once() {
    let mut f = Fields::new();
    assert!(f.is_empty());
    f.insert("a".to_string(), "1".to_string());
    f.insert("b".to_string(), "2".to_string());
    f.insert("a".to_string(), "3".to_string());
    assert_eq!(f.len(), 2);
    assert_eq!(f.name_at(0), "a");
    assert_eq!(f.value_at(0), "3");
    assert_eq!(f.name_at(1), "b");
    assert_eq!(f.get("a"), Some("3"));
    assert_eq!(f.get("b"), Some("2"));
    assert_eq!(f.get("c"), None);
    assert_eq!(f.position("b"), Some(1));
    assert_eq!(f.position("z"), None);
}

#[test]
fn fields_count_their_octets() {
    let mut f = Fields::new();
    assert_eq!(f.octets(), Some(0));
    f.insert("key".to_string(), "value".to_string());
    f.insert("é".to_string(), "".to_string());
    assert_eq!(f.octets(), Some(3 + 5 + 2));
    let c = f.clone();
    assert_eq!(c.len(), 2);
    assert_eq!(c.get("key"), Some("value"));
    assert_eq!(c.octets(), Some(10));
}

#[test]
fn header_line_with_padding_yields_name_and_value() {
    assert_eq!(parse_header("  Name  :  value  "), pair("name", "value"));
    assert_eq!(parse_header("Name:value"), pair("name", "value"));
}

#[test]
fn header_names_come_back_in_lower_case() {
    assert_eq!(parse_header("X-A: 1"), pair("x-a", "1"));
    assert_eq!(parse_header("Content-Type: text/plain; charset=utf-8"), pair(
        "content-type",
        "text/plain; charset=utf-8"
    ));
}

#[test]
fn header_line_splits_at_the_first_colon() {
    assert_eq!(parse_header("Host: example.org:8080"), pair("host", "example.org:8080"));
    assert_eq!(parse_header("X-Empty:"), pair("x-empty", ""));
}

#[test]
fn header_lines_that_are_no_headers() {
    assert_eq!(parse_header("bad"), None);
    assert_eq!(parse_header(""), None);
    assert_eq!(parse_header(": value"), None);
    assert_eq!(parse_header("bad name: value"), None);
    assert_eq!(parse_header("Name: a\u{7f}b"), None);
    assert_eq!(parse_header("Name: a\nb"), None);
}

#[test]
fn header_values_may_hold_tabs_and_high_octets() {
    assert_eq!(parse_header("X-T: a\tb"), pair("x-t", "a\tb"));
    assert_eq!(parse_header("X-U: grüße"), pair("x-u", "grüße"));
}

#[test]
fn form_line_with_padding_yields_name_and_value() {
    assert_eq!(parse_form_field("k = v"), pair("k", "v"));
    assert_eq!(parse_form_field("k=v"), pair("k", "v"));
    assert_eq!(parse_form_field("  key  =  a = b  "), pair("key", "a = b"));
    assert_eq!(parse_form_field("="), pair("", ""));
    assert_eq!(parse_form_field("bad"), None);
}

#[test]
fn white_space_is_the_white_space_of_unicode() {
    let white = |c: char| {
        matches!(
            c as u32,
            0x09..=0x0D
                | 0x20
                | 0x85
                | 0xA0
                | 0x1680
                | 0x2000..=0x200A
                | 0x2028
                | 0x2029
                | 0x202F
                | 0x205F
                | 0x3000
        )
    };
    for n in 0..=0x10FFFFu32 {
        if let Some(c) = char::from_u32(n) {
            assert_eq!(c.is_whitespace(), white(c));
        }
    }
    for n in [0x09u32, 0x0B, 0x20, 0x85, 0xA0, 0x1680, 0x2000, 0x200A, 0x2028, 0x205F, 0x3000] {
        let c = char::from_u32(n).unwrap();
        assert_eq!(trim(&format!("{}x{}", c, c)), "x");
    }
    for c in ['\u{8}', '\u{e}', '\u{1f}', '\u{200b}', '\u{feff}', ':', '='] {
        let padded = format!("{}x{}", c, c);
        assert_eq!(trim(&padded), padded);
    }
}

#[test]
fn header_names_are_made_of_token_characters_in_lower_case() {
    let token = |c: char| c.is_ascii_alphanumeric() || "!#$%&'*+-.^_`|~".contains(c);
    for n in 0..=0x2FFu32 {
        let c = char::from_u32(n).unwrap();
        if c == ':' {
            continue;
        }
        let line = format!("a{}b:v", c);
        let expected = if token(c) {
            Some((format!("a{}b", c.to_ascii_lowercase()), "v".to_string()))
        } else {
            None
        };
        // White space at the ends is trimmed, not read as part of the name.
        assert_eq!(parse_header(&line), expected);
    }
    assert_eq!(parse_header("ABCxyzXYZ019:v"), pair("abcxyzxyz019", "v"));
}

#[test]
fn header_names_have_a_greatest_length() {
    let longest = "n".repeat(65_535);
    assert_eq!(parse_header(&format!("{}:v", longest)), Some((longest.clone(), "v".to_string())));
    assert_eq!(parse_header(&format!("{}n:v", longest)), None);
    let capitals = "N".repeat(100);
    assert_eq!(parse_header(&format!("{}:v", capitals)), Some(("n".repeat(100), "v".to_string())));
}

#[test]
fn headers_are_found_in_whatever_case_the_name_is_written() {
    let mut headers = Headers::new();
    let (name, value) = parse_header("  Name  :  value  ").unwrap();
    assert!(headers.insert(&name, &value));
    let (name, value) = parse_header("X-A: 1").unwrap();
    assert!(headers.insert(&name, &value));
    assert_eq!(headers.get("Name"), Some("value".to_string()));
    assert_eq!(headers.get("name"), Some("value".to_string()));
    assert_eq!(headers.get("NAME"), Some("value".to_string()));
    assert_eq!(headers.get("x-a"), Some("1".to_string()));
    assert_eq!(headers.get("X-a"), Some("1".to_string()));
    assert_eq!(headers.get("X-B"), None);
    assert_eq!(headers.get("no name"), None);
    assert_eq!(headers.get(""), None);
}
