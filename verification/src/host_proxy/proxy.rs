//! Where the forward proxy sends a request: the host and port of its `Host`
//! header and the path of its request line.

use vstd::prelude::*;

use crate::network::proxy::{char_index, decode_lossy, find_char, utf8_lossy};
use crate::text::{
    chars_of, has_prefix, lines, int_decimal, i32_decimal, parse_i32, parsed_i32,
    push_all, slice_chars, starts_with, string_of, text_lines, text_words, trim, trim_ws, words,
};

verus! {

/// The host, port and path of a request.
pub struct RequestHead {
    pub host: String,
    pub port: i32,
    pub path: String,
}

/// A request head as plain values.
pub struct HeadView {
    pub host: Seq<char>,
    pub port: i32,
    pub path: Seq<char>,
}

impl View for RequestHead {
    type V = HeadView;

    open spec fn view(&self) -> HeadView {
        HeadView { host: self.host@, port: self.port, path: self.path@ }
    }
}

/// The head after one more line.  A `Host: ` line sets the host, its text
/// trimmed; when that text has a `:`, the host is what precedes it and the
/// port what follows, parsed as an `i32` (80 when it does not parse).  A `GET `
/// or `POST ` line with at least two words sets the path to its second word.
pub open spec fn head_update(h: HeadView, line: Seq<char>) -> HeadView {
    let h1 = if has_prefix(line, "Host: "@) {
        let value = trim_ws(line.skip(6));
        let colon = char_index(value, ':', 0);
        if colon < value.len() {
            HeadView {
                host: value.take(colon),
                port: match parsed_i32(value.skip(colon + 1)) {
                    Some(p) => p,
                    None => 80,
                },
                ..h
            }
        } else {
            HeadView { host: value, ..h }
        }
    } else {
        h
    };
    if has_prefix(line, "GET "@) || has_prefix(line, "POST "@) {
        let parts = text_words(line);
        if parts.len() >= 2 {
            HeadView { path: parts[1], ..h1 }
        } else {
            h1
        }
    } else {
        h1
    }
}

/// The head after the given lines, from no host, port 80 and path `/`.
pub open spec fn head_after(lines: Seq<Seq<char>>) -> HeadView
    decreases lines.len(),
{
    if lines.len() == 0 {
        HeadView { host: Seq::empty(), port: 80, path: seq!['/'] }
    } else {
        head_update(head_after(lines.drop_last()), lines.last())
    }
}

/// The head of a request text (see `head_after`).
pub fn request_head(request: &str) -> (h: RequestHead)
    ensures
        h@ == head_after(text_lines(request@)),
{
    let req = chars_of(request);
    let ls = lines(&req);
    let ghost lv = ls.deep_view();
    let mut host: Vec<char> = Vec::new();
    let mut port: i32 = 80;
    let mut path: Vec<char> = Vec::new();
    path.push('/');
    let host_prefix = chars_of("Host: ");
    let get_prefix = chars_of("GET ");
    let post_prefix = chars_of("POST ");
    let mut i: usize = 0;
    while i < ls.len()
        invariant
            0 <= i <= ls@.len(),
            lv == ls.deep_view(),
            host_prefix@ == "Host: "@,
            get_prefix@ == "GET "@,
            post_prefix@ == "POST "@,
            (HeadView { host: host@, port, path: path@ }) == head_after(lv.take(i as int)),
        decreases ls.len() - i,
    {
        let line = &ls[i];
        proof {
            assert(lv[i as int] == line@);
            assert(lv.take(i + 1).drop_last() == lv.take(i as int));
            assert(lv.take(i + 1).last() == lv[i as int]);
        }
        let ghost h0 = HeadView { host: host@, port, path: path@ };
        let ghost lview = line@;
        if starts_with(line, &host_prefix) {
            proof {
                reveal_strlit("Host: ");
            }
            let value = trim(&slice_chars(line, 6, line.len()));
            let colon = find_char(&value, ':');
            if colon < value.len() {
                port = match parse_i32(&slice_chars(&value, colon + 1, value.len())) {
                    Some(p) => p,
                    None => 80,
                };
                host = slice_chars(&value, 0, colon);
            } else {
                host = value;
            }
        }
        let ghost h1 = if has_prefix(lview, "Host: "@) {
            let value = trim_ws(lview.skip(6));
            let colon = char_index(value, ':', 0);
            if colon < value.len() {
                HeadView {
                    host: value.take(colon),
                    port: match parsed_i32(value.skip(colon + 1)) {
                        Some(p) => p,
                        None => 80,
                    },
                    ..h0
                }
            } else {
                HeadView { host: value, ..h0 }
            }
        } else {
            h0
        };
        proof {
            reveal_strlit("Host: ");
            assert(host@ == h1.host);
            assert(port == h1.port);
            assert(path@ == h1.path);
        }
        if starts_with(line, &get_prefix) || starts_with(line, &post_prefix) {
            let parts = words(line);
            if parts.len() >= 2 {
                proof {
                    assert(parts.deep_view()[1] == parts@[1]@);
                }
                path = slice_chars(&parts[1], 0, parts[1].len());
            }
        }
        proof {
            reveal_strlit("GET ");
            reveal_strlit("POST ");
            let h2 = head_update(h0, lview);
            assert(host@ == h2.host);
            assert(port == h2.port);
            assert(path@ == h2.path);
            assert(head_after(lv.take(i + 1)) == head_update(head_after(lv.take(i as int)), lview));
        }
        i = i + 1;
    }
    proof {
        assert(lv.take(ls@.len() as int) == lv);
    }
    RequestHead { host: string_of(&host), port, path: string_of(&path) }
}

/// The head of the request a client sent, read as UTF-8 (invalid sequences
/// replaced); `None` when it names no host.
pub fn forward_target(buffer: &[u8]) -> (r: Option<RequestHead>)
    ensures
        match r {
            Some(h) => h@ == head_after(text_lines(utf8_lossy(buffer@))) && h@.host.len() > 0,
            None => head_after(text_lines(utf8_lossy(buffer@))).host.len() == 0,
        },
{
    let text = decode_lossy(buffer);
    let head = request_head(text.as_str());
    if head.host.as_str().is_empty() {
        None
    } else {
        Some(head)
    }
}

/// The address to connect to for a request head: its host, `:` and its port.
pub fn upstream_address(head: &RequestHead) -> (a: String)
    ensures
        a@ == head@.host + seq![':'] + int_decimal(head.port as int),
{
    let mut t = chars_of(head.host.as_str());
    t.push(':');
    push_all(&mut t, &i32_decimal(head.port));
    proof {
        assert(t@ =~= head@.host + seq![':'] + int_decimal(head.port as int));
    }
    string_of(&t)
}

} // verus!
