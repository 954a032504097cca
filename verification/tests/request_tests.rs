use http_handler::headers::Headers;
use http_handler::request::{
    parse_header_line, parse_headers, parse_method, HTTPMethod, HTTPRequest, ParseFailure,
};

#[test]
fn test_parse_request() {
    let request = HTTPRequest::parse(
        "GET / HTTP/1.1\r\n\
         Host: localhost:4221\r\n\
         User-Agent: curl/7.54.0\r\n\
         Accept: */*\r\n\r\n",
    )
    .unwrap();
    assert_eq!(request.method, HTTPMethod::Get);
    assert_eq!(request.path, "/");
    assert_eq!(request.version, "HTTP/1.1");
    assert_eq!(request.headers.len(), 3);
    assert_eq!(
        request.headers.get("Host"),
        Some(&"localhost:4221".to_string())
    );
    assert_eq!(
        request.headers.get("User-Agent"),
        Some(&"curl/7.54.0".to_string())
    );
    assert_eq!(request.headers.get("Accept"), Some(&"*/*".to_string()));
}

#[test]
fn test_parse_header_line() {
    assert_eq!(parse_header_line(""), None);
    assert_eq!(parse_header_line("invalid"), None);
    assert_eq!(
        parse_header_line("Host: localhost:4221"),
        Some(("Host".to_string(), "localhost:4221".to_string()))
    );
    assert_eq!(
        parse_header_line("User-Agent: curl/7.54.0"),
        Some(("User-Agent".to_string(), "curl/7.54.0".to_string()))
    );
    assert_eq!(
        parse_header_line("Accept: */*"),
        Some(("Accept".to_string(), "*/*".to_string()))
    );
}

#[test]
fn test_parse_headers() {
    let headers = parse_headers(vec![
        "Host: localhost:4221",
        "User-Agent: curl/7.54.0",
        "Accept: */*",
    ]);
    assert_eq!(headers.len(), 3);
    assert_eq!(headers.get("Host"), Some(&"localhost:4221".to_string()));
    assert_eq!(headers.get("User-Agent"), Some(&"curl/7.54.0".to_string()));
    assert_eq!(headers.get("Accept"), Some(&"*/*".to_string()));
}

#[test]
fn parse_reads_each_method() {
    assert_eq!(parse_method("GET"), Some(HTTPMethod::Get));
    assert_eq!(parse_method("POST"), Some(HTTPMethod::Post));
    assert_eq!(parse_method("PUT"), Some(HTTPMethod::Put));
    assert_eq!(parse_method("DELETE"), Some(HTTPMethod::Delete));
    assert_eq!(parse_method("get"), None);
    assert_eq!(parse_method("PATCH"), None);
    assert_eq!(parse_method(""), None);
}

#[test]
fn parse_rejects_an_unknown_method() {
    assert_eq!(
        HTTPRequest::parse("PATCH / HTTP/1.1\r\n\r\n"),
        Err(ParseFailure::UnsupportedMethod)
    );
    assert_eq!(
        HTTPRequest::parse("get / HTTP/1.1\r\n\r\n"),
        Err(ParseFailure::UnsupportedMethod)
    );
    assert_eq!(
        HTTPRequest::parse("BREW"),
        Err(ParseFailure::UnsupportedMethod)
    );
}

#[test]
fn parse_rejects_a_short_start_line() {
    assert_eq!(HTTPRequest::parse(""), Err(ParseFailure::Malformed));
    assert_eq!(HTTPRequest::parse("\r\n"), Err(ParseFailure::Malformed));
    assert_eq!(HTTPRequest::parse("   \r\n"), Err(ParseFailure::Malformed));
    assert_eq!(HTTPRequest::parse("GET"), Err(ParseFailure::Malformed));
    assert_eq!(HTTPRequest::parse("GET /\r\n"), Err(ParseFailure::Malformed));
    assert_eq!(
        HTTPRequest::parse("GET /\r\nHTTP/1.1\r\n\r\n"),
        Err(ParseFailure::Malformed)
    );
}

#[test]
fn parse_rejects_a_path_without_a_leading_slash() {
    assert_eq!(
        HTTPRequest::parse("GET index.html HTTP/1.1\r\n\r\n"),
        Err(ParseFailure::Malformed)
    );
}

#[test]
fn parse_takes_the_first_three_words() {
    let request = HTTPRequest::parse("  POST \t /a/b   HTTP/1.0 extra words\r\n\r\n").unwrap();
    assert_eq!(request.method, HTTPMethod::Post);
    assert_eq!(request.path, "/a/b");
    assert_eq!(request.version, "HTTP/1.0");
    assert!(request.headers.is_empty());
}

#[test]
fn parse_splits_a_header_on_its_first_colon() {
    assert_eq!(
        parse_header_line("  Host :  a:b:c  "),
        Some(("Host".to_string(), "a:b:c".to_string()))
    );
    assert_eq!(
        parse_header_line(":"),
        Some(("".to_string(), "".to_string()))
    );
    assert_eq!(
        parse_header_line("X-Empty:"),
        Some(("X-Empty".to_string(), "".to_string()))
    );
    assert_eq!(
        parse_header_line("\u{a0}Key\u{2003}:\u{3000}v w\u{85}"),
        Some(("Key".to_string(), "v w".to_string()))
    );
}

#[test]
fn parse_passes_over_lines_without_a_colon() {
    let request =
        HTTPRequest::parse("GET / HTTP/1.1\nnot a header\nA: 1\n  \nB: 2\n\nrest").unwrap();
    assert_eq!(request.headers.len(), 2);
    assert_eq!(request.headers.get("A"), Some(&"1".to_string()));
    assert_eq!(request.headers.get("B"), Some(&"2".to_string()));
    assert_eq!(request.body, Some(b"rest".to_vec()));
}

#[test]
fn parse_lets_a_later_header_win() {
    let request = HTTPRequest::parse("GET / HTTP/1.1\r\nA: 1\r\nB: 2\r\nA: 3\r\n\r\n").unwrap();
    assert_eq!(request.headers.len(), 2);
    assert_eq!(request.headers.get("A"), Some(&"3".to_string()));
    assert_eq!(request.headers.key_at(0), "A");
    assert_eq!(request.headers.value_at(0), "3");
    assert_eq!(request.headers.key_at(1), "B");
    assert_eq!(
        request.headers,
        Headers::from_pairs(vec![
            ("B".to_string(), "2".to_string()),
            ("A".to_string(), "3".to_string()),
        ])
    );
}

#[test]
fn parse_keeps_header_names_as_they_came() {
    let request = HTTPRequest::parse("GET / HTTP/1.1\r\nuser-agent: x\r\n\r\n").unwrap();
    assert_eq!(request.headers.get("User-Agent"), None);
    assert_eq!(request.headers.get("user-agent"), Some(&"x".to_string()));
}

#[test]
fn parse_finds_the_body_after_the_empty_line() {
    let request =
        HTTPRequest::parse("POST /files/a HTTP/1.1\r\nContent-Length: 5\r\n\r\nhel: lo\r\nmore")
            .unwrap();
    assert_eq!(request.headers.len(), 1);
    assert_eq!(request.body, Some(b"hel: lo\r\nmore".to_vec()));
    let empty = HTTPRequest::parse("GET / HTTP/1.1\r\n\r\n").unwrap();
    assert_eq!(empty.body, Some(Vec::new()));
    let none = HTTPRequest::parse("GET / HTTP/1.1\r\nA: b\r\n").unwrap();
    assert_eq!(none.body, None);
    assert_eq!(none.headers.len(), 1);
    let bare = HTTPRequest::parse("GET / HTTP/1.1").unwrap();
    assert_eq!(bare.body, None);
    let utf8 = HTTPRequest::parse("GET / HTTP/1.1\n\n\u{e9}\u{20ac}").unwrap();
    assert_eq!(utf8.body, Some(vec![0xc3, 0xa9, 0xe2, 0x82, 0xac]));
}

#[test]
fn parse_keeps_a_lone_carriage_return() {
    let request = HTTPRequest::parse("GET /a HTTP/1.1\nA: b\r").unwrap();
    assert_eq!(request.headers.get("A"), Some(&"b".to_string()));
    let request = HTTPRequest::parse("GET /a HTTP/1.1\n\rA: b\n\nx").unwrap();
    assert_eq!(request.headers.get("A"), Some(&"b".to_string()));
    assert_eq!(request.body, Some(b"x".to_vec()));
}
