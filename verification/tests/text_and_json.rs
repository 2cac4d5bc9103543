use pt_manager::bytes::{
    find_bytes, header_end_index, lossy_text, push_big_endian, read_big_endian, text_of_bytes,
};
use pt_manager::json::{find_value, json_of_value, parse_json, quote_json, Json};
use pt_manager::list::push_new;
use pt_manager::number::{
    decimal_of, decimal_padded, parse_number, parse_u16, parse_u32, parse_usize, NumberError,
};
use pt_manager::order::{is_before, sort_distinct};
use pt_manager::percent::{encode_cdp_target_url, percent_encode};
use pt_manager::text::{
    chars_of, contains_str, is_alphanumeric, is_white, join, lines, lower_char, remove_char,
    replace, rsplit_once, split, split_once, split_once_str, split_white, string_of, strip_prefix,
    strip_prefixes, to_lower, trim, trim_end_char, trim_start_char,
};

fn chars(s: &str) -> Vec<char> {
    chars_of(s)
}

fn shown(list: Vec<&[char]>) -> Vec<String> {
    list.iter().map(|p| string_of(p)).collect()
}

fn owned(list: &[&str]) -> Vec<String> {
    list.iter().map(|s| s.to_string()).collect()
}

#[test]
fn characters_are_classified_as_in_the_standard_library() {
    let mut code: u32 = 0;
    while code <= 0x10ffff {
        if let Some(c) = char::from_u32(code) {
            assert_eq!(is_white(c), c.is_whitespace());
            assert_eq!(is_alphanumeric(c), c.is_ascii_alphanumeric());
            assert_eq!(lower_char(c), c.to_ascii_lowercase());
        }
        code += 1;
    }
}

#[test]
fn trimming_takes_unicode_white_space() {
    let text = chars(" \u{3000}a b\u{2028}\t");
    assert_eq!(string_of(trim(&text)), "a b");
    assert_eq!(string_of(trim(&chars(" \n"))), "");
    assert_eq!(string_of(trim_end_char(&chars("a//b//"), '/')), "a//b");
    assert_eq!(string_of(trim_start_char(&chars("..a."), '.')), "a.");
}

#[test]
fn texts_are_cut_as_in_the_standard_library() {
    for text in ["", ",", "a,b,c", "ab", ",a,", "a,,b"] {
        let want: Vec<String> = text.split(',').map(|s| s.to_string()).collect();
        assert_eq!(shown(split(&chars(text), ',')), want);
    }
    for text in ["", "a", "a\n", "a\r\nb\n\nc", "\n", "a\r", "a\rb\nc"] {
        let want: Vec<String> = text.lines().map(|s| s.to_string()).collect();
        assert_eq!(shown(lines(&chars(text))), want);
    }
    for text in ["", "  a  b ", "a", " \t ", "x\u{3000}y z"] {
        let want: Vec<String> = text.split_whitespace().map(|s| s.to_string()).collect();
        assert_eq!(shown(split_white(&chars(text))), want);
    }
    let text = chars("a:b:c");
    let (head, tail) = split_once(&text, ':').unwrap();
    assert_eq!((string_of(head), string_of(tail)), ("a".to_string(), "b:c".to_string()));
    let (head, tail) = rsplit_once(&text, ':').unwrap();
    assert_eq!((string_of(head), string_of(tail)), ("a:b".to_string(), "c".to_string()));
    assert!(split_once(&text, '/').is_none());
    let text = chars("x]:]:y");
    let (head, tail) = split_once_str(&text, "]:").unwrap();
    assert_eq!((string_of(head), string_of(tail)), ("x".to_string(), "]:y".to_string()));
}

#[test]
fn prefixes_are_stripped_once_or_as_often_as_they_stand() {
    let text = chars("http://http://a");
    assert_eq!(string_of(strip_prefix(&text, "http://").unwrap()), "http://a");
    assert_eq!(string_of(strip_prefixes(&text, "http://")), "a");
    assert!(strip_prefix(&text, "https://").is_none());
}

#[test]
fn replacing_works_from_the_left() {
    assert_eq!(replace(&chars("aaaa"), "aa", "b"), "aaaa".replace("aa", "b"));
    assert_eq!(replace(&chars("xaay"), "aa", "<uuid>"), "x<uuid>y");
    assert_eq!(replace(&chars("abc"), "z", "y"), "abc");
    assert_eq!(remove_char(&chars("a b  c"), ' '), "abc");
}

#[test]
fn joining_puts_separators_between() {
    assert_eq!(join(&owned(&["a", "b", "c"]), ", "), "a, b, c");
    assert_eq!(join(&owned(&[]), ", "), "");
    assert!(contains_str(&chars("connection refused"), "refused"));
    assert_eq!(string_of(&to_lower(&chars("ÄAbZ"))), "Äabz");
}

#[test]
fn numbers_are_written_and_read_back() {
    for n in [0u64, 9, 10, 255, 65535, 1_000_000, u64::MAX] {
        assert_eq!(decimal_of(n), n.to_string());
        assert_eq!(parse_number(&chars(&decimal_of(n)), 10, u64::MAX), Ok(n));
    }
    assert_eq!(decimal_padded(42, 6), "000042");
    assert_eq!(decimal_padded(1234567, 6), "1234567");
}

#[test]
fn numbers_are_refused_as_in_the_standard_library() {
    for text in ["", "+", "-1", "1a", " 1", "65535", "65536", "+7", "007", "0x1"] {
        assert_eq!(parse_u16(&chars(text)), text.parse::<u16>().ok());
        assert_eq!(parse_u32(&chars(text)), text.parse::<u32>().ok());
    }
    for text in ["ff", "FF", "0", "+a", "g", "", "ffffffffffffffffffff"] {
        assert_eq!(parse_usize(&chars(text), 16), usize::from_str_radix(text, 16).ok());
    }
    assert_eq!(parse_number(&chars(""), 10, 9), Err(NumberError::Empty));
    assert_eq!(parse_number(&chars("x"), 10, 9), Err(NumberError::InvalidDigit));
    assert_eq!(parse_number(&chars("10"), 10, 9), Err(NumberError::TooLarge));
}

#[test]
fn texts_are_ordered_as_in_the_standard_library() {
    let list = ["b", "a", "", "ab", "中", "aa", "b", "Z"];
    for a in list {
        for b in list {
            assert_eq!(is_before(a, b), a < b);
        }
    }
    assert_eq!(sort_distinct(&owned(&list)), owned(&["", "Z", "a", "aa", "ab", "b", "中"]));
}

#[test]
fn repeated_texts_are_kept_once() {
    let mut list: Vec<String> = Vec::new();
    assert!(push_new(&mut list, "a"));
    assert!(push_new(&mut list, "b"));
    assert!(!push_new(&mut list, "a"));
    assert_eq!(list, owned(&["a", "b"]));
}

#[test]
fn numbers_in_network_order_are_read_back() {
    let mut out: Vec<u8> = vec![7];
    push_big_endian(&mut out, 0x0102_0304, 8);
    assert_eq!(out, vec![7, 0, 0, 0, 0, 1, 2, 3, 4]);
    assert_eq!(read_big_endian(&out[1..]), 0x0102_0304);
    assert_eq!(read_big_endian(&[0xff; 8]), u64::MAX);
    assert_eq!(read_big_endian(&[]), 0);
}

#[test]
fn bytes_are_found_at_their_first_place() {
    assert_eq!(find_bytes(b"a\r\n\r\nb\r\n\r\n", b"\r\n\r\n", 0), Some(1));
    assert_eq!(find_bytes(b"a\r\n\r\nb\r\n\r\n", b"\r\n\r\n", 2), Some(6));
    assert_eq!(find_bytes(b"ab", b"abc", 0), None);
    assert_eq!(header_end_index(b"HTTP/1.1 200 OK\r\n\r\nbody"), Some(19));
    assert_eq!(header_end_index(b"HTTP/1.1 200 OK\r\n"), None);
}

#[test]
fn bytes_are_decoded_or_refused() {
    assert_eq!(text_of_bytes("中文".as_bytes().to_vec()), Ok("中文".to_string()));
    let refused = text_of_bytes(vec![b'a', 0xff]).unwrap_err();
    assert_eq!(refused, String::from_utf8(vec![b'a', 0xff]).unwrap_err().to_string());
    assert_eq!(lossy_text(&[b'a', 0xff]), "a\u{fffd}");
    assert_eq!(lossy_text("é".as_bytes()), "é");
}

#[test]
fn json_is_read_layer_by_layer() {
    let text = r#"{"b":[1,-2,2.5,"x",null,true],"a":{"k":"v"},"n":18446744073709551615}"#;
    let json = parse_json(text).unwrap();
    assert_eq!(json.get("a").unwrap().str_at("k"), Some("v"));
    assert_eq!(json.u64_at("n"), Some(u64::MAX));
    let items = json.get("b").unwrap().as_array().unwrap();
    assert_eq!(items.len(), 6);
    assert_eq!(items[0].as_u64(), Some(1));
    assert_eq!(items[1].as_u64(), None);
    assert!(matches!(&items[1], Json::Number(t) if t == "-2"));
    assert!(matches!(&items[2], Json::Number(t) if t == "2.5"));
    assert_eq!(items[3].as_str(), Some("x"));
    assert!(matches!(items[4], Json::Null));
    assert_eq!(items[5].as_bool(), Some(true));
    assert!(json.get("missing").is_none());
    assert_eq!(
        parse_json("{").unwrap_err(),
        serde_json::from_str::<serde_json::Value>("{").unwrap_err().to_string()
    );
}

#[test]
fn values_are_found_by_their_key() {
    let value: serde_json::Value = serde_json::from_str(r#"{"a":{"b":2}}"#).unwrap();
    let inner = find_value(&value, "a").unwrap();
    assert_eq!(json_of_value(inner).u64_at("b"), Some(2));
    assert!(find_value(inner, "a").is_none());
}

#[test]
fn texts_are_quoted_for_scripts() {
    assert_eq!(
        quote_json("\u{1}\u{1f}\u{8}\u{c}\t\r/\u{7f}"),
        "\"\\u0001\\u001f\\b\\f\\t\\r/\u{7f}\""
    );
    assert_eq!(quote_json("a\"b\\c\n中"), "\"a\\\"b\\\\c\\n中\"");
    assert_eq!(parse_json(&quote_json("x'\"")).unwrap().as_str(), Some("x'\""));
}

#[test]
fn reserved_bytes_are_escaped() {
    assert_eq!(percent_encode("aZ09-_.~ /?中"), "aZ09-_.~%20%2F%3F%E4%B8%AD");
    assert_eq!(percent_encode(""), "");
    assert_eq!(
        encode_cdp_target_url("  https://a.b/?x=1&y=<\"中`> c "),
        "https://a.b/?x=1&y=%3C%22%E4%B8%AD%60%3E%20c"
    );
    assert_eq!(encode_cdp_target_url("a\tb\u{7f}%20"), "a%09b%7F%20");
}

#[test]
fn texts_are_escaped_piece_by_piece() {
    let (a, b) = ("a b/中", "~%");
    let whole = format!("{a}{b}");
    assert_eq!(percent_encode(&whole), format!("{}{}", percent_encode(a), percent_encode(b)));
    assert_eq!(percent_encode(a), "a%20b%2F%E4%B8%AD");
    assert_ne!(percent_encode(a), percent_encode("a b/国"));
}
