use http_handler::decimal::{char_is_digit, decimal_string, parse_usize};
use http_handler::handlers::{FileReading, FileWriting};
use http_handler::headers::Headers;
use http_handler::response::HTTPResponse;
use http_handler::store::MemoryStore;
use http_handler::strings::{chars_eq, split_words, starts_with, str_eq, string_of};
use http_handler::text::{
    char_is_whitespace, find, read_line, skip_spaces, skip_spaces_back, skip_word, trim_bounds,
};

fn chars(text: &str) -> Vec<char> {
    text.chars().collect()
}

fn parse(text: &str) -> Option<usize> {
    parse_usize(&chars(text))
}

#[test]
fn decimal_numerals_are_written_out() {
    assert_eq!(decimal_string(0), "0");
    assert_eq!(decimal_string(7), "7");
    assert_eq!(decimal_string(10), "10");
    assert_eq!(decimal_string(404), "404");
    assert_eq!(decimal_string(1234567890), "1234567890");
    assert_eq!(decimal_string(usize::MAX), usize::MAX.to_string());
}

#[test]
fn decimal_numerals_are_read_back() {
    assert_eq!(parse("0"), Some(0));
    assert_eq!(parse("5"), Some(5));
    assert_eq!(parse("+5"), Some(5));
    assert_eq!(parse("0042"), Some(42));
    assert_eq!(parse("1234567890"), Some(1234567890));
    assert_eq!(parse(&usize::MAX.to_string()), Some(usize::MAX));
    for n in [0usize, 1, 9, 10, 99, 100, 2048, 65535, usize::MAX - 1, usize::MAX] {
        assert_eq!(parse(&decimal_string(n)), Some(n));
    }
}

#[test]
fn what_is_no_numeral_is_refused() {
    for text in ["", "+", "-1", "++1", "1+", " 1", "1 ", "a", "1a", "1.0", "\u{663}"] {
        assert_eq!(parse(text), None);
    }
    let too_large = format!("{}0", usize::MAX);
    assert_eq!(parse(&too_large), None);
    let next = format!("{}", usize::MAX as u128 + 1);
    assert_eq!(parse(&next), None);
    assert_eq!(parse("99999999999999999999999999999999999999999x"), None);
}

#[test]
fn digits_and_whitespace_are_told_apart() {
    assert!(char_is_digit('0') && char_is_digit('9'));
    assert!(!char_is_digit('/') && !char_is_digit(':') && !char_is_digit('a'));
    for code in 0..=0x3100u32 {
        if let Some(c) = char::from_u32(code) {
            assert_eq!(char_is_whitespace(c), c.is_whitespace());
        }
    }
}

#[test]
fn scanning_finds_the_bounds() {
    let text = chars("  ab\tcd  ");
    assert_eq!(find(&text, 'c', 0), 5);
    assert_eq!(find(&text, 'c', 6), 9);
    assert_eq!(find(&text, ' ', 1), 1);
    assert_eq!(skip_spaces(&text, 0), 2);
    assert_eq!(skip_word(&text, 2), 4);
    assert_eq!(skip_spaces_back(&text, 9), 7);
    assert_eq!(trim_bounds(&text), (2, 7));
    assert_eq!(trim_bounds(&chars(" \t ")), (0, 0));
    assert_eq!(trim_bounds(&chars("")), (0, 0));
    assert_eq!(trim_bounds(&chars("x")), (0, 1));
}

#[test]
fn lines_end_with_a_feed() {
    let text = chars("ab\r\ncd\n\r\nef\r");
    assert_eq!(read_line(&text, 0), (2, 4));
    assert_eq!(read_line(&text, 4), (6, 7));
    assert_eq!(read_line(&text, 7), (7, 9));
    assert_eq!(read_line(&text, 9), (12, 12));
    assert_eq!(read_line(&text, 12), (12, 12));
    assert_eq!(read_line(&chars("\n"), 0), (0, 1));
}

#[test]
fn words_are_split_on_whitespace() {
    assert_eq!(split_words(&chars("  GET  /a\tHTTP/1.1 \u{a0}")), vec!["GET", "/a", "HTTP/1.1"]);
    assert_eq!(split_words(&chars("one")), vec!["one"]);
    assert!(split_words(&chars(" \t\r")).is_empty());
    assert!(split_words(&chars("")).is_empty());
}

#[test]
fn strings_are_compared_by_their_text() {
    assert!(str_eq("", ""));
    assert!(str_eq("h\u{e9}", "h\u{e9}"));
    assert!(!str_eq("a", "b"));
    assert!(!str_eq("a", "ab"));
    assert!(chars_eq(&chars("ab"), &chars("ab")));
    assert!(!chars_eq(&chars("ab"), &chars("ac")));
    assert!(!chars_eq(&chars("ab"), &chars("a")));
    assert!(starts_with(&chars("/echo/x"), &chars("/echo/")));
    assert!(starts_with(&chars("abc"), &chars("")));
    assert!(!starts_with(&chars("/ech"), &chars("/echo/")));
    assert!(!starts_with(&chars("/echa/"), &chars("/echo/")));
    assert_eq!(string_of(&chars("h\u{e9}llo"), 1, 3), "\u{e9}l");
    assert_eq!(string_of(&chars("abc"), 2, 2), "");
}

#[test]
fn headers_keep_one_value_for_each_name() {
    let mut headers = Headers::new();
    assert!(headers.is_empty());
    assert_eq!(headers.get("A"), None);
    headers.insert("A".to_string(), "1".to_string());
    headers.insert("B".to_string(), "2".to_string());
    headers.insert("A".to_string(), "3".to_string());
    assert_eq!(headers.len(), 2);
    assert!(!headers.is_empty());
    assert!(headers.contains_key("A"));
    assert!(!headers.contains_key("a"));
    assert_eq!(headers.get("A"), Some(&"3".to_string()));
    assert_eq!(headers.get("B"), Some(&"2".to_string()));
    assert_eq!(headers.key_at(0), "A");
    assert_eq!(headers.value_at(0), "3");
    assert_eq!(headers.key_at(1), "B");
    assert_eq!(headers.value_at(1), "2");
}

#[test]
fn headers_are_equal_whatever_their_order() {
    let one = Headers::from_pairs(vec![
        ("A".to_string(), "1".to_string()),
        ("B".to_string(), "2".to_string()),
    ]);
    let other = Headers::from_pairs(vec![
        ("B".to_string(), "2".to_string()),
        ("A".to_string(), "0".to_string()),
        ("A".to_string(), "1".to_string()),
    ]);
    assert_eq!(one, other);
    assert_eq!(other, one);
    let different = Headers::from_pairs(vec![
        ("A".to_string(), "1".to_string()),
        ("B".to_string(), "3".to_string()),
    ]);
    assert_ne!(one, different);
    let shorter = Headers::from_pairs(vec![("A".to_string(), "1".to_string())]);
    assert_ne!(one, shorter);
    assert_ne!(shorter, one);
    let renamed = Headers::from_pairs(vec![
        ("A".to_string(), "1".to_string()),
        ("C".to_string(), "2".to_string()),
    ]);
    assert_ne!(one, renamed);
    assert_eq!(Headers::new(), Headers::from_pairs(Vec::new()));
}

#[test]
fn the_standard_outcomes() {
    let all = [
        (HTTPResponse::ok(), 200, "OK"),
        (HTTPResponse::created(), 201, "Created"),
        (HTTPResponse::bad_request(), 400, "Bad Request"),
        (HTTPResponse::not_found(), 404, "Not Found"),
        (HTTPResponse::not_implemented(), 501, "Not Implemented"),
        (HTTPResponse::status(418, "I'm a teapot"), 418, "I'm a teapot"),
    ];
    for (response, code, text) in all {
        assert_eq!(response.status_code, code);
        assert_eq!(response.status_text, text);
        assert!(response.headers.is_empty());
        assert_eq!(response.body, "");
    }
}

#[test]
fn a_response_with_content_gives_its_length_in_bytes() {
    let response = HTTPResponse::with_content("text/plain", "gr\u{fc}\u{df}e".to_string());
    assert_eq!(response.status_code, 200);
    assert_eq!(response.status_text, "OK");
    assert_eq!(response.body, "gr\u{fc}\u{df}e");
    assert_eq!(response.headers.len(), 2);
    assert_eq!(response.headers.key_at(0), "Content-Type");
    assert_eq!(response.headers.value_at(0), "text/plain");
    assert_eq!(response.headers.key_at(1), "Content-Length");
    assert_eq!(response.headers.value_at(1), "7");
}

#[test]
fn the_wire_format() {
    assert_eq!(HTTPResponse::ok().to_wire(), "HTTP/1.1 200 OK\r\n\r\n");
    assert_eq!(
        HTTPResponse::not_implemented().to_wire(),
        "HTTP/1.1 501 Not Implemented\r\n\r\n"
    );
    assert_eq!(
        HTTPResponse::with_content("text/plain", "abc".to_string()).to_wire(),
        "HTTP/1.1 200 OK\r\nContent-Type: text/plain\r\nContent-Length: 3\r\n\r\nabc"
    );
    let mut response = HTTPResponse::status(7, "");
    response.headers.insert("X".to_string(), "".to_string());
    response.body = "a\r\nb".to_string();
    assert_eq!(response.to_wire(), "HTTP/1.1 7 \r\nX: \r\n\r\na\r\nb");
}

#[test]
fn the_wire_carries_the_length_of_a_body() {
    for body in ["a", "abc", "gr\u{fc}\u{df}e", "line\r\nline", "0123456789"] {
        let response = HTTPResponse::with_content("text/plain", body.to_string());
        let line = format!("Content-Length: {}\r\n", body.len());
        assert!(response.to_wire().contains(&line));
    }
}

#[test]
fn the_store_serves_what_was_written() {
    let mut store = MemoryStore::new();
    assert_eq!(store.contents("a"), None);
    assert!(store.read_to_string("a").is_err());
    assert!(store.write_bytes_to_file("a", b"one").is_ok());
    assert!(store.write_bytes_to_file("b", b"two").is_ok());
    assert_eq!(store.read_to_string("a").unwrap(), "one");
    assert_eq!(store.read_to_string("b").unwrap(), "two");
    assert!(store.write_bytes_to_file("a", b"three").is_ok());
    assert_eq!(store.read_to_string("a").unwrap(), "three");
    assert_eq!(store.read_to_string("b").unwrap(), "two");
    assert_eq!(store.contents("a"), Some(&b"three".to_vec()));
    store.put("c", &[0xe2, 0x82, 0xac]);
    assert_eq!(store.read_to_string("c").unwrap(), "\u{20ac}");
}

#[test]
fn the_store_reads_no_text_from_other_bytes() {
    let mut store = MemoryStore::new();
    store.put("raw", &[0xff, 0xfe]);
    assert_eq!(store.contents("raw"), Some(&vec![0xff, 0xfe]));
    let error = store.read_to_string("raw").unwrap_err();
    assert_eq!(error.kind(), std::io::ErrorKind::InvalidData);
    let error = store.read_to_string("none").unwrap_err();
    assert_eq!(error.kind(), std::io::ErrorKind::NotFound);
}
