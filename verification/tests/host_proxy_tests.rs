use load_thing::host_proxy::data::Request;
use load_thing::host_proxy::error::{fmt_error, ERROR_10, ERROR_2};
use load_thing::host_proxy::misc::{format_hostname, Protocol};
use load_thing::host_proxy::processor::process;
use load_thing::host_proxy::proxy::{forward_target, request_head, upstream_address};
use load_thing::host_proxy::structure::FeaturesConfig;
use load_thing::helpers::ansi;

#[test]
fn format_hostname_lowercases_protocol() {
    assert_eq!(format_hostname(Protocol::Http, "127.0.0.1:9595".to_string()), "http://127.0.0.1:9595");
    assert_eq!(format_hostname(Protocol::Https, "h".to_string()), "https://h");
    assert_eq!(Protocol::Https.to_display_string(), "Https");
}

#[test]
fn host_proxy_fmt_error() {
    assert_eq!(
        fmt_error(ERROR_2),
        format!("{}ERROR RAISED WITH CODE: 2! MESSAGE: Failed to bind address{}", ansi::RED, ansi::RESET)
    );
    assert_eq!(ERROR_10, 16);
}

#[test]
fn request_head_reads_host_port_and_path() {
    let h = request_head("GET /index.html HTTP/1.1\r\nHost:  example.org:8080 \r\n\r\n");
    assert_eq!(h.host, "example.org");
    assert_eq!(h.port, 8080);
    assert_eq!(h.path, "/index.html");
    assert_eq!(upstream_address(&h), "example.org:8080");
}

#[test]
fn request_head_defaults_and_bad_port() {
    let h = request_head("POST /form HTTP/1.1\nHost: a:x\n");
    assert_eq!(h.host, "a");
    assert_eq!(h.port, 80);
    assert_eq!(h.path, "/form");
    let h = request_head("PUT /p HTTP/1.1\nHost: b:-3\n");
    assert_eq!(h.port, -3);
    assert_eq!(h.path, "/");
    assert_eq!(upstream_address(&h), "b:-3");
}

#[test]
fn host_without_port_keeps_earlier_port() {
    let h = request_head("Host: a:81\nHost: b\n");
    assert_eq!(h.host, "b");
    assert_eq!(h.port, 81);
}

#[test]
fn forward_target_needs_a_host() {
    assert!(forward_target(b"GET / HTTP/1.1\r\n\r\n").is_none());
    let h = forward_target(b"GET / HTTP/1.1\r\nHost: x\r\n").unwrap();
    assert_eq!(h.host, "x");
}

#[test]
fn process_prints_enabled_lines() {
    let r = Request { location: "l".into(), target: "t".into(), path: "/".into(), time: 5 };
    assert_eq!(r.to_display_string(), "Request { location: l, target: t, path /, time 5ms }");
    let both = process(&r, &FeaturesConfig { log: true, time: true });
    assert_eq!(
        both,
        vec![
            "New request: Request { location: l, target: t, path /, time 5ms }".to_string(),
            "  Time taken: 5".to_string()
        ]
    );
    assert!(process(&r, &FeaturesConfig { log: false, time: false }).is_empty());
}
