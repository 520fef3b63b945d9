use domain_mcp::decimal::{parse_i32, parse_u16, parse_u32, push_decimal, push_signed_decimal};
use domain_mcp::text::{
    append, contains, ends_with, find, has_char, holds, is_blank, is_space, join_text, lines,
    lowercase, matches_at, same, split, split_whitespace, starts_with, strip_char, text_of,
    to_chars, trim, trim_text,
};

fn chars(s: &str) -> Vec<char> {
    s.chars().collect()
}

fn strings(rows: Vec<Vec<char>>) -> Vec<String> {
    rows.iter().map(|r| r.iter().collect()).collect()
}

#[test]
fn chars_and_text_round_trip() {
    assert_eq!(to_chars("héllo"), chars("héllo"));
    assert_eq!(text_of(&chars("héllo")), "héllo");
    assert_eq!(to_chars(""), Vec::<char>::new());
    assert_eq!(text_of(&Vec::new()), "");
}

#[test]
fn white_space_agrees_with_the_standard_library() {
    let mut code: u32 = 0;
    while code <= 0x10FFFF {
        if let Some(c) = char::from_u32(code) {
            assert_eq!(is_space(c), c.is_whitespace(), "U+{:04X}", code);
        }
        code += 1;
    }
}

#[test]
fn trim_agrees_with_the_standard_library() {
    for s in ["", " ", "  a  ", "a", "\t a b \r\n", "\u{3000}x\u{a0}", "   ", "a ", " a"] {
        assert_eq!(text_of(&trim(&chars(s))), s.trim(), "{:?}", s);
        assert_eq!(is_blank(&chars(s)), s.trim().is_empty(), "{:?}", s);
    }
}

#[test]
fn split_agrees_with_the_standard_library() {
    for s in ["", ",", "a,b", "a,,b,", ",a", "abc", "a,b,c,d"] {
        let expected: Vec<String> = s.split(',').map(|p| p.to_string()).collect();
        assert_eq!(strings(split(&chars(s), ',')), expected, "{:?}", s);
    }
}

#[test]
fn lines_agree_with_the_standard_library() {
    for s in [
        "", "\n", "a", "a\n", "a\nb", "a\r\nb\r\n", "a\r", "a\r\n", "\r\n", "\n\n", "a\n\nb",
        "a\rb\n", "\r", "x\r\r\n",
    ] {
        let expected: Vec<String> = s.lines().map(|p| p.to_string()).collect();
        assert_eq!(strings(lines(&chars(s))), expected, "{:?}", s);
    }
}

#[test]
fn tokens_agree_with_the_standard_library() {
    for s in ["", " ", "a", " a  b\tc\n", "10 mail.example.com", "a\u{3000}b", "  x"] {
        let expected: Vec<String> = s.split_whitespace().map(|p| p.to_string()).collect();
        assert_eq!(strings(split_whitespace(&chars(s))), expected, "{:?}", s);
    }
}

#[test]
fn find_and_contains_agree_with_the_standard_library() {
    for (s, p) in [
        ("", ""), ("abc", ""), ("abc", "abc"), ("abc", "bc"), ("abc", "abcd"), ("aab", "ab"),
        ("No matching record found", "No matching record"), ("abc", "x"),
    ] {
        assert_eq!(contains(&chars(s), &chars(p)), s.contains(p), "{:?} {:?}", s, p);
        assert_eq!(find(&chars(s), &chars(p), 0), s.find(p), "{:?} {:?}", s, p);
        assert_eq!(starts_with(&chars(s), &chars(p)), s.starts_with(p), "{:?} {:?}", s, p);
        assert_eq!(ends_with(&chars(s), &chars(p)), s.ends_with(p), "{:?} {:?}", s, p);
    }
    assert_eq!(find(&chars("abcabc"), &chars("bc"), 2), Some(4));
    assert_eq!(find(&chars("abcabc"), &chars("bc"), 5), None);
    assert_eq!(find(&chars("abc"), &chars("bc"), 9), None);
}

#[test]
fn lowercase_changes_upper_case_letters() {
    assert_eq!(text_of(&lowercase(&chars("EXAMPLE.Com"))), "example.com");
    assert_eq!(text_of(&lowercase(&chars("ÉCOLE"))), "école");
}

#[test]
fn unsigned_numbers_agree_with_the_standard_library() {
    for s in [
        "", "+", "-", "0", "10", "+10", "-10", "65535", "65536", "000010", "1a", " 1", "1 ",
        "4294967295", "4294967296", "99999999999999999999999", "-0", "٣",
    ] {
        assert_eq!(parse_u16(&chars(s)), s.parse::<u16>().ok(), "{:?}", s);
        assert_eq!(parse_u32(&chars(s)), s.parse::<u32>().ok(), "{:?}", s);
    }
}

#[test]
fn signed_numbers_agree_with_the_standard_library() {
    for s in [
        "", "+", "-", "0", "-0", "+0", "3600", "-3600", "2147483647", "2147483648",
        "-2147483648", "-2147483649", "--1", "+-1", "1-", "0x10", "0000000000000000000001",
    ] {
        assert_eq!(parse_i32(&chars(s)), s.parse::<i32>().ok(), "{:?}", s);
    }
}

#[test]
fn decimal_writing_agrees_with_the_standard_library() {
    for n in [0u64, 7, 10, 65535, 2023120101, u64::MAX] {
        let mut out = chars("x");
        push_decimal(&mut out, n);
        assert_eq!(text_of(&out), format!("x{}", n));
    }
    for n in [0i64, -1, 1, -2147483648, 2147483647, i64::MIN, i64::MAX] {
        let mut out = Vec::new();
        push_signed_decimal(&mut out, n);
        assert_eq!(text_of(&out), format!("{}", n));
    }
}

#[test]
fn numbers_read_as_the_values_they_write() {
    assert_eq!(parse_u16(&chars("10")), Some(10));
    assert_eq!(parse_u16(&chars("65535")), Some(65535));
    assert_eq!(parse_u16(&chars("65536")), None);
    assert_eq!(parse_u32(&chars("2023120101")), Some(2023120101));
    assert_eq!(parse_i32(&chars("-2147483648")), Some(-2147483648));
    assert_eq!(parse_i32(&chars("+7")), Some(7));
}

#[test]
fn split_pieces_join_back_to_the_text() {
    for s in ["", ",", "a,b", "a,,b,", "no separator"] {
        let pieces = strings(split(&chars(s), ','));
        assert_eq!(pieces.join(","), s);
        assert!(pieces.iter().all(|p| !p.contains(',')));
    }
}

#[test]
fn small_helpers_do_what_they_say() {
    assert!(same("abc", "abc"));
    assert!(!same("abc", "abd"));
    assert!(!same("abc", "ab"));
    let list = vec!["registrar".to_string(), "abuse".to_string()];
    assert!(holds(&list, "abuse"));
    assert!(!holds(&list, "Abuse"));
    assert!(!holds(&Vec::new(), ""));
    assert_eq!(join_text("base", "/domain/"), "base/domain/");
    let mut out = chars("ab");
    append(&mut out, &chars("cd"));
    assert_eq!(text_of(&out), "abcd");
    assert!(has_char(&chars("a.b"), '.'));
    assert!(!has_char(&chars("ab"), '.'));
    assert!(matches_at(&chars("hello"), &chars("ll"), 2));
    assert!(!matches_at(&chars("hello"), &chars("ll"), 3));
    assert!(!matches_at(&chars("hello"), &chars("lo"), 4));
    assert!(matches_at(&chars("hello"), &chars(""), 5));
    assert!(!matches_at(&chars("hello"), &chars(""), 6));
    assert_eq!(trim_text("  a b \n"), "a b");
}

#[test]
fn strip_char_agrees_with_the_standard_library() {
    for s in ["", "\"", "\"\"", "\"a\"", "a\"b", "\"\"a\"b\"\"\"", "plain"] {
        assert_eq!(text_of(&strip_char(&chars(s), '"')), s.trim_matches('"'), "{:?}", s);
    }
}
