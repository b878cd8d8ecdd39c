use load_thing::helpers::data::Request;
use load_thing::helpers::error::fmt_error;
use load_thing::network::proxy::{rewrite_http_request, rewrite_request_text};

#[test]
fn rewrite_replaces_host_and_absolute_url() {
    let (bytes, path) = rewrite_http_request(
        b"GET http://old.example/a/b?q=1 HTTP/1.1\r\nHost: old.example\r\nAccept: */*\r\n\r\n",
        "new.example",
    );
    assert_eq!(path, "/a/b?q=1");
    assert_eq!(
        String::from_utf8(bytes).unwrap(),
        "GET /a/b?q=1 HTTP/1.1\r\nHost: new.example\r\nAccept: */*\r\n\r\n\r\n"
    );
}

#[test]
fn rewrite_adds_missing_host() {
    let (bytes, path) = rewrite_http_request(b"GET /x HTTP/1.0\nUser-Agent: t\n", "h");
    assert_eq!(path, "/x");
    assert_eq!(
        String::from_utf8(bytes).unwrap(),
        "GET /x HTTP/1.0\r\nUser-Agent: t\r\nHost: h\r\n\r\n"
    );
}

#[test]
fn rewrite_host_header_is_case_insensitive() {
    let (bytes, _) = rewrite_http_request(b"GET / HTTP/1.1\r\nHOST: a\r\nhOsT:b\r\n", "z");
    assert_eq!(
        String::from_utf8(bytes).unwrap(),
        "GET / HTTP/1.1\r\nHost: z\r\nHost: z\r\n\r\n"
    );
}

#[test]
fn rewrite_short_request_line_is_kept() {
    let (bytes, path) = rewrite_http_request(b"HELLO\r\n", "z");
    assert_eq!(path, "/");
    assert_eq!(String::from_utf8(bytes).unwrap(), "HELLO\r\nHost: z\r\n\r\n");
}

#[test]
fn rewrite_empty_request_is_returned_as_is() {
    let (bytes, path) = rewrite_http_request(b"", "z");
    assert_eq!(path, "/");
    assert!(bytes.is_empty());
}

#[test]
fn rewrite_absolute_url_without_path_uses_error_text() {
    let (_, path) = rewrite_http_request(b"GET https://only.host HTTP/1.1\r\n", "z");
    assert_eq!(path, fmt_error(1));
}

#[test]
fn rewrite_uses_second_separator_segment() {
    let (_, path) = rewrite_http_request(b"GET http://a/b://c/d HTTP/1.1\r\n", "z");
    assert_eq!(path, "/b");
}

#[test]
fn rewrite_invalid_utf8_is_replaced() {
    let (bytes, path) = rewrite_http_request(b"GET /\xff HTTP/1.1\r\n", "z");
    assert_eq!(path, "/\u{FFFD}");
    assert_eq!(
        String::from_utf8(bytes).unwrap(),
        "GET /\u{FFFD} HTTP/1.1\r\nHost: z\r\n\r\n"
    );
}

#[test]
fn rewrite_text_keeps_bare_carriage_return_at_end() {
    let (text, _) = rewrite_request_text("A B C\nx\r", "h").unwrap();
    assert_eq!(text, "A B C\r\nx\r\r\nHost: h\r\n\r\n");
    assert!(rewrite_request_text("", "h").is_none());
}

#[test]
fn rewrite_splits_on_unicode_whitespace() {
    let (text, path) = rewrite_request_text("GET\u{3000}/p\tHTTP/1.1", "h").unwrap();
    assert_eq!(path, "/p");
    assert_eq!(text, "GET /p HTTP/1.1\r\nHost: h\r\n\r\n");
}

#[test]
fn request_display() {
    let r = Request {
        location: "l".to_string(),
        target: "t".to_string(),
        path: "/p".to_string(),
        ip: "1.2.3.4".to_string(),
        time: 12,
    };
    assert_eq!(
        r.to_display_string(),
        "Request { location: l, target: t, path: /p, ip: 1.2.3.4 time: 12ms }"
    );
}
