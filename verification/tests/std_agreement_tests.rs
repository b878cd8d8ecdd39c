//! The library's text handling checked against the same steps written with
//! std's own string functions and formatting.

use load_thing::helpers::ansi;
use load_thing::helpers::error::fmt_error;
use load_thing::helpers::logger::TableLogger;
use load_thing::network::proxy::rewrite_http_request;

fn std_rewrite(buffer: &[u8], clean_host: &str) -> (Vec<u8>, String) {
    let request = String::from_utf8_lossy(buffer);
    let lines: Vec<&str> = request.lines().collect();
    if lines.is_empty() {
        return (buffer.to_vec(), "/".into());
    }
    let mut result = String::new();
    let mut request_path: String = "/".into();
    let parts: Vec<&str> = lines[0].split_whitespace().collect();
    if parts.len() >= 3 {
        let url = parts[1];
        request_path = if url.starts_with("http://") || url.starts_with("https://") {
            url.split("://")
                .nth(1)
                .and_then(|s| s.split_once('/'))
                .map(|(_, path)| format!("/{}", path))
                .unwrap_or_else(|| fmt_error(1))
        } else {
            url.into()
        };
        result.push_str(&format!("{} {} {}\r\n", parts[0], request_path, parts[2]));
    } else {
        result.push_str(lines[0]);
        result.push_str("\r\n");
    }
    let mut has_host = false;
    for line in lines.iter().skip(1) {
        if line.to_lowercase().starts_with("host:") {
            result.push_str(&format!("Host: {}\r\n", clean_host));
            has_host = true;
        } else {
            result.push_str(line);
            result.push_str("\r\n");
        }
    }
    if !has_host {
        result.push_str(&format!("Host: {}\r\n", clean_host));
    }
    result.push_str("\r\n");
    (result.into_bytes(), request_path)
}

#[test]
fn rewrite_agrees_with_std_steps() {
    let cases: Vec<&[u8]> = vec![
        b"",
        b"\n",
        b"\r\n\r\n",
        b"GET / HTTP/1.1\r\nHost: a\r\n\r\n",
        b"GET http://a.b/c/d HTTP/1.1\r\nhost: x\r\nX: y\r\n",
        b"POST https://q/ HTTP/2\nHOST:z\nHost z\n",
        b"GET https://noslash HTTP/1.1\n",
        b"GET http://a://b/c HTTP/1.1\n",
        b"GET http:// HTTP/1.1\n",
        b"GET  /spaced   HTTP/1.1  extra\r\n",
        b"ONEWORD\r\nTWO WORDS\r\n",
        b"GET /x HTTP/1.1\r\nHost: a\r",
        b"GET /\xc3\xa9\xff\xfe HTTP/1.1\r\n\xe2\x80\xa8Host: no\r\n",
        b"GET \xe3\x80\x80/u\xc2\xa0HTTP/1.1\n",
        b"\xc4\xb0host: x\nKost: y\n\xe2\x84\xaaost: z\n",
    ];
    for case in cases {
        for host in ["h", "example.com", ""] {
            assert_eq!(rewrite_http_request(case, host), std_rewrite(case, host), "{:?}", case);
        }
    }
}

fn std_log(headers: &[&str], rows: &[Vec<&str>], logged: bool) -> String {
    let mut widths: Vec<usize> = headers.iter().map(|h| h.len()).collect();
    for row in rows {
        for (i, cell) in row.iter().enumerate() {
            if i < widths.len() {
                widths[i] = widths[i].max(cell.len());
            }
        }
    }
    let mut output = String::new();
    output.push_str(ansi::GREEN);
    if !logged {
        output.push_str("| ");
        for (i, header) in headers.iter().enumerate() {
            output.push_str(&format!("{:<width$}", header, width = widths[i]));
            output.push_str(" | ");
        }
        output.push('\n');
        output.push_str("|-");
        for width in &widths {
            output.push_str(&"-".repeat(*width));
            output.push_str("-|-");
        }
        output.push('|');
        output.pop();
        output.pop();
        output.push('\n');
    }
    for row in rows {
        output.push_str("| ");
        for (i, cell) in row.iter().enumerate() {
            let width = if i < widths.len() { widths[i] } else { cell.len() };
            output.push_str(&format!("{:<width$}", cell, width = width));
            output.push_str(" | ");
        }
    }
    output.push_str(ansi::RESET);
    output
}

#[test]
fn log_agrees_with_std_formatting() {
    let headers = ["ip", "pfad", "zähler"];
    let rows = vec![
        vec!["127.0.0.1", "/", "1"],
        vec!["::1", "/ünïcödé/path", "22", "extra", "ééé"],
        vec![],
        vec!["a"],
    ];
    let mut logger = TableLogger::new(headers.iter().map(|s| s.to_string()).collect());
    for row in &rows {
        logger.add_row(row.iter().map(|s| s.to_string()).collect());
    }
    assert_eq!(logger.log(), std_log(&headers, &rows, false));
    let more = vec![vec!["x", "y"]];
    logger.add_row(vec!["x".to_string(), "y".to_string()]);
    let all: Vec<Vec<&str>> = rows.iter().cloned().chain(more.iter().cloned()).collect();
    let expected_widths_log = std_log(&headers, &all, true);
    // The widths kept from the earlier rows apply to the new row.
    let mut expected = String::from(ansi::GREEN);
    let body_start = ansi::GREEN.len();
    let body = &expected_widths_log[body_start..expected_widths_log.len() - ansi::RESET.len()];
    let last_row_start = body.rfind("| x").unwrap();
    expected.push_str(&body[last_row_start..]);
    expected.push_str(ansi::RESET);
    assert_eq!(logger.log(), expected);
}
