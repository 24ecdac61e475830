use seoder::text::{
    chars_of, decimal_string, find, join, parse_bool, parse_u16, parse_u64, parse_u8,
    parse_usize, remove_first_of, split_chars, string_of, text_lines, trim,
};

fn cs(s: &str) -> Vec<char> {
    s.chars().collect()
}

#[test]
fn decimal_round_trip() {
    for n in [0u64, 7, 10, 1234, u64::MAX] {
        let s = decimal_string(n);
        assert_eq!(s, n.to_string());
        assert_eq!(parse_u64(&cs(&s)), Some(n));
    }
}

#[test]
fn parse_unsigned_like_std() {
    assert_eq!(parse_u64(&cs("+5")), Some(5));
    assert_eq!(parse_u64(&cs("-5")), None);
    assert_eq!(parse_u64(&cs("")), None);
    assert_eq!(parse_u64(&cs("+")), None);
    assert_eq!(parse_u64(&cs("12a")), None);
    assert_eq!(parse_u64(&cs("18446744073709551615")), Some(u64::MAX));
    assert_eq!(parse_u64(&cs("18446744073709551616")), None);
    assert_eq!(parse_u16(&cs("65535")), Some(65535));
    assert_eq!(parse_u16(&cs("65536")), None);
    assert_eq!(parse_u8(&cs("256")), None);
    assert_eq!(parse_usize(&cs("007")), Some(7));
    for s in ["+5", "-5", "", "+", "007", "99999999999999999999"] {
        assert_eq!(parse_u64(&cs(s)), s.parse::<u64>().ok());
    }
}

#[test]
fn parse_bool_exact() {
    assert_eq!(parse_bool(&cs("true")), Some(true));
    assert_eq!(parse_bool(&cs("false")), Some(false));
    assert_eq!(parse_bool(&cs("True")), None);
    assert_eq!(parse_bool(&cs("")), None);
}

#[test]
fn trim_matches_std() {
    for s in ["  a b \n", "\u{3000}x\u{a0}", "   ", "", "no-space"] {
        assert_eq!(string_of(&trim(&cs(s))), s.trim());
    }
}

#[test]
fn split_keeps_empty_pieces() {
    let pieces = split_chars(&cs("a  b "), ' ');
    let pieces: Vec<String> = pieces.iter().map(|p| p.iter().collect()).collect();
    assert_eq!(pieces, vec!["a", "", "b", ""]);
    let one = split_chars(&cs(""), ' ');
    assert_eq!(one.len(), 1);
}

#[test]
fn find_and_remove_first() {
    assert_eq!(find(&cs("abcabc"), &cs("bc")), Some(1));
    assert_eq!(find(&cs("abc"), &cs("x")), None);
    assert_eq!(find(&cs("abc"), &cs("")), Some(0));
    let r = remove_first_of(&cs("/a/b/a/"), &cs("/a"));
    assert_eq!(string_of(&r), "/b/a/");
    let r = remove_first_of(&cs("abc"), &cs("zz"));
    assert_eq!(string_of(&r), "abc");
    assert_eq!(chars_of("héllo"), cs("héllo"));
}

#[test]
fn lines_like_bufread() {
    let lines = text_lines("a\r\nb\n\nc\r");
    assert_eq!(lines, vec!["a", "b", "", "c\r"]);
    assert_eq!(text_lines("x\n"), vec!["x"]);
    assert!(text_lines("").is_empty());
    let joined = join(&vec!["a".to_string(), "b".to_string()], "\n");
    assert_eq!(joined, "a\nb");
    assert_eq!(text_lines(&joined), vec!["a", "b"]);
}
