//! Rewriting a client's HTTP request for the upstream server.

use vstd::prelude::*;
use vstd::utf8::{decode_utf8, encode_utf8, valid_utf8};
use vstd::slice::slice_to_vec;

use crate::helpers::error::{error_chars, error_text, ERROR_1_FAILED_TO_GET_URI_PATH};
use crate::text::{
    chars_of, has_prefix, int_decimal, is_white_space, lemma_nat_decimal, line_scan, lines,
    push_all, slice_chars, starts_with, strip_cr, string_of, text_lines, text_words, word_scan,
    words,
};

verus! {

/// The text of `String::from_utf8_lossy` on the given bytes: invalid UTF-8
/// sequences replaced by U+FFFD.
pub uninterp spec fn utf8_lossy(bytes: Seq<u8>) -> Seq<char>;

/// `String::from_utf8_lossy`, made an owned `String`.  Its documentation says
/// that each invalid sequence becomes U+FFFD and that valid UTF-8 is decoded
/// as it is; the contract states the second, and names the whole result.
#[verifier::external_body]
pub(crate) fn decode_lossy(bytes: &[u8]) -> (s: String)
    ensures
        s@ == utf8_lossy(bytes@),
        valid_utf8(bytes@) ==> s@ == decode_utf8(bytes@),
{
    String::from_utf8_lossy(bytes).into_owned()
}

/// The first index at or after `k` where `s` holds `://`, or the length of `s`.
pub open spec fn separator_index(s: Seq<char>, k: int) -> int
    decreases s.len() - k,
{
    if k < 0 || k + 3 > s.len() {
        s.len() as int
    } else if s[k] == ':' && s[k + 1] == '/' && s[k + 2] == '/' {
        k
    } else {
        separator_index(s, k + 1)
    }
}

/// The first index at or after `k` where `s` holds `c`, or the length of `s`.
pub open spec fn char_index(s: Seq<char>, c: char, k: int) -> int
    decreases s.len() - k,
{
    if k < 0 || k >= s.len() {
        s.len() as int
    } else if s[k] == c {
        k
    } else {
        char_index(s, c, k + 1)
    }
}

/// The path to send upstream for the URL of a request line.  An absolute URL
/// (`http://` or `https://`) gives `/` and what follows the first `/` of its
/// authority part (the text between its first and its second `://`); when that
/// part has no `/`, the path is the report of error 1.  Any other URL is kept.
pub open spec fn request_path_of(url: Seq<char>) -> Seq<char> {
    if has_prefix(url, "http://"@) || has_prefix(url, "https://"@) {
        let start = separator_index(url, 0) + 3;
        let authority = url.subrange(start, separator_index(url, start));
        let slash = char_index(authority, '/', 0);
        if slash < authority.len() {
            seq!['/'] + authority.skip(slash + 1)
        } else {
            error_text(ERROR_1_FAILED_TO_GET_URI_PATH)
        }
    } else {
        url
    }
}

/// Whether a header line is a `Host` header: lowercased, it begins with `host:`.
/// (Only `H`/`h`, `O`/`o`, `S`/`s`, `T`/`t` and `:` lowercase to those letters.)
pub open spec fn is_host_header(line: Seq<char>) -> bool {
    &&& line.len() >= 5
    &&& (line[0] == 'h' || line[0] == 'H')
    &&& (line[1] == 'o' || line[1] == 'O')
    &&& (line[2] == 's' || line[2] == 'S')
    &&& (line[3] == 't' || line[3] == 'T')
    &&& line[4] == ':'
}

/// A carriage return and a line feed.
pub open spec fn crlf() -> Seq<char> {
    seq!['\r', '\n']
}

/// The `Host` header line that names `host`.
pub open spec fn host_line(host: Seq<char>) -> Seq<char> {
    "Host: "@ + host + crlf()
}

/// A header line as it is sent upstream: a `Host` header names `host`, any
/// other line is kept.
pub open spec fn header_line(line: Seq<char>, host: Seq<char>) -> Seq<char> {
    if is_host_header(line) {
        host_line(host)
    } else {
        line + crlf()
    }
}

/// The header lines, each as it is sent upstream.
pub open spec fn header_block(lines: Seq<Seq<char>>, host: Seq<char>) -> Seq<char>
    decreases lines.len(),
{
    if lines.len() == 0 {
        Seq::empty()
    } else {
        header_block(lines.drop_last(), host) + header_line(lines.last(), host)
    }
}

/// Whether some line is a `Host` header.
pub open spec fn has_host_header(lines: Seq<Seq<char>>) -> bool {
    exists|i: int| 0 <= i < lines.len() && is_host_header(#[trigger] lines[i])
}

/// The first line as it is sent upstream, and the request's path.  A line of at
/// least three words is rebuilt from its method, its path (see
/// `request_path_of`) and its version; any other line is kept, with path `/`.
pub open spec fn request_line(first: Seq<char>) -> (Seq<char>, Seq<char>) {
    let parts = text_words(first);
    if parts.len() >= 3 {
        let path = request_path_of(parts[1]);
        (parts[0] + seq![' '] + path + seq![' '] + parts[2] + crlf(), path)
    } else {
        (first + crlf(), seq!['/'])
    }
}

/// The request as it is sent upstream, and its path; `None` when the request
/// has no line.  Lines end with `\r\n`; a `Host` header is added when there is
/// none, and an empty line ends the head.
pub open spec fn rewritten_request(request: Seq<char>, host: Seq<char>) -> Option<
    (Seq<char>, Seq<char>),
> {
    let ls = text_lines(request);
    if ls.len() == 0 {
        None
    } else {
        let (head, path) = request_line(ls[0]);
        let rest = ls.skip(1);
        let missing = if has_host_header(rest) {
            Seq::empty()
        } else {
            host_line(host)
        };
        Some((head + header_block(rest, host) + missing + crlf(), path))
    }
}

proof fn lemma_separator_at_most(s: Seq<char>, k: int, j: int)
    requires
        0 <= k <= j,
        j + 3 <= s.len(),
        s[j] == ':' && s[j + 1] == '/' && s[j + 2] == '/',
    ensures
        k <= separator_index(s, k) <= j,
    decreases j - k,
{
    if !(s[k] == ':' && s[k + 1] == '/' && s[k + 2] == '/') {
        lemma_separator_at_most(s, k + 1, j);
    }
}

proof fn lemma_separator_bounds(s: Seq<char>, k: int)
    requires
        0 <= k <= s.len(),
    ensures
        k <= separator_index(s, k) <= s.len(),
    decreases s.len() - k,
{
    if k + 3 <= s.len() && !(s[k] == ':' && s[k + 1] == '/' && s[k + 2] == '/') {
        lemma_separator_bounds(s, k + 1);
    }
}

/// Whether `t` holds `u` at some position.
pub open spec fn occurs_in(u: Seq<char>, t: Seq<char>) -> bool {
    exists|i: int| 0 <= i && i + u.len() <= t.len() && #[trigger] t.subrange(i, i + u.len()) == u
}

/// Whether `t` ends with a carriage return and a line feed.
pub open spec fn ends_with_crlf(t: Seq<char>) -> bool {
    t.len() >= 2 && t.subrange(t.len() - 2, t.len() as int) == crlf()
}

proof fn lemma_occurs_extend(u: Seq<char>, a: Seq<char>, t: Seq<char>, b: Seq<char>)
    requires
        occurs_in(u, t),
    ensures
        occurs_in(u, a + t + b),
{
    let i = choose|i: int| 0 <= i && i + u.len() <= t.len() && #[trigger] t.subrange(i, i + u.len()) == u;
    let w = a + t + b;
    assert(w.subrange(a.len() + i, a.len() + i + u.len()) =~= t.subrange(i, i + u.len()));
}

proof fn lemma_occurs_self(u: Seq<char>, a: Seq<char>, b: Seq<char>)
    ensures
        occurs_in(u, a + u + b),
{
    let w = a + u + b;
    assert(w.subrange(a.len() as int, a.len() + u.len() as int) =~= u);
}

proof fn lemma_block_names_host(lines: Seq<Seq<char>>, host: Seq<char>, j: int)
    requires
        0 <= j < lines.len(),
        is_host_header(lines[j]),
    ensures
        occurs_in(host_line(host), header_block(lines, host)),
    decreases lines.len(),
{
    if j == lines.len() - 1 {
        lemma_occurs_self(host_line(host), header_block(lines.drop_last(), host), Seq::empty());
        assert(header_block(lines, host) =~= header_block(lines.drop_last(), host) + host_line(host)
            + Seq::<char>::empty());
    } else {
        assert(lines.drop_last()[j] == lines[j]);
        lemma_block_names_host(lines.drop_last(), host, j);
        lemma_occurs_extend(
            host_line(host),
            Seq::empty(),
            header_block(lines.drop_last(), host),
            header_line(lines.last(), host),
        );
        assert(header_block(lines, host) =~= Seq::<char>::empty() + header_block(lines.drop_last(), host)
            + header_line(lines.last(), host));
    }
}

proof fn lemma_ends_crlf_concat(a: Seq<char>, b: Seq<char>)
    requires
        ends_with_crlf(b),
    ensures
        ends_with_crlf(a + b),
{
    let w = a + b;
    assert(w.subrange(w.len() - 2, w.len() as int) =~= b.subrange(b.len() - 2, b.len() as int));
}

proof fn lemma_block_ends_crlf(lines: Seq<Seq<char>>, host: Seq<char>)
    ensures
        header_block(lines, host).len() == 0 || ends_with_crlf(header_block(lines, host)),
    decreases lines.len(),
{
    if lines.len() > 0 {
        let line = header_line(lines.last(), host);
        if is_host_header(lines.last()) {
            assert(line.subrange(line.len() - 2, line.len() as int) =~= crlf());
        } else {
            assert(line.subrange(line.len() - 2, line.len() as int) =~= crlf());
        }
        lemma_ends_crlf_concat(header_block(lines.drop_last(), host), line);
    }
}

/// The rewritten request always names the upstream server in a `Host` header:
/// the client's `Host` headers are replaced, and one is added when it had none.
pub proof fn law_rewritten_names_host(request: Seq<char>, host: Seq<char>)
    requires
        rewritten_request(request, host) is Some,
    ensures
        occurs_in(host_line(host), rewritten_request(request, host).unwrap().0),
{
    let ls = text_lines(request);
    let (head, path) = request_line(ls[0]);
    let rest = ls.skip(1);
    let block = header_block(rest, host);
    if has_host_header(rest) {
        let j = choose|j: int| 0 <= j < rest.len() && is_host_header(#[trigger] rest[j]);
        lemma_block_names_host(rest, host, j);
        lemma_occurs_extend(host_line(host), head, block, crlf());
        assert(rewritten_request(request, host).unwrap().0 =~= head + block + crlf());
    } else {
        lemma_occurs_self(host_line(host), head + block, crlf());
        assert(rewritten_request(request, host).unwrap().0 =~= head + block + host_line(host) + crlf());
    }
}

/// The rewritten request's head ends with an empty line: its text ends with
/// two line endings.
pub proof fn law_rewritten_ends_head(request: Seq<char>, host: Seq<char>)
    requires
        rewritten_request(request, host) is Some,
    ensures
        ({
            let t = rewritten_request(request, host).unwrap().0;
            t.len() >= 4 && t.subrange(t.len() - 4, t.len() as int) == crlf() + crlf()
        }),
{
    let ls = text_lines(request);
    let (head, path) = request_line(ls[0]);
    let rest = ls.skip(1);
    let block = header_block(rest, host);
    let missing = if has_host_header(rest) {
        Seq::empty()
    } else {
        host_line(host)
    };
    assert(ends_with_crlf(head)) by {
        assert(head.subrange(head.len() - 2, head.len() as int) =~= crlf());
    }
    lemma_block_ends_crlf(rest, host);
    let body = head + block + missing;
    assert(ends_with_crlf(body)) by {
        if missing.len() > 0 {
            assert(missing.subrange(missing.len() - 2, missing.len() as int) =~= crlf());
            lemma_ends_crlf_concat(head + block, missing);
        } else if block.len() > 0 {
            lemma_ends_crlf_concat(head, block);
            assert(body =~= head + block);
        } else {
            assert(body =~= head);
        }
    }
    let t = body + crlf();
    assert(t =~= rewritten_request(request, host).unwrap().0);
    assert(t.subrange(t.len() - 4, t.len() as int) =~= body.subrange(body.len() - 2, body.len() as int)
        + crlf());
}

/// Whether `s` holds no line feed.
pub open spec fn one_line(s: Seq<char>) -> bool {
    forall|i: int| 0 <= i < s.len() ==> s[i] != '\n'
}

/// A line after the request line as it is sent upstream, without its ending.
spec fn forwarded(line: Seq<char>, host: Seq<char>) -> Seq<char> {
    if is_host_header(line) {
        "Host: "@ + host
    } else {
        line
    }
}

proof fn lemma_scan_append(a: Seq<char>, l: Seq<char>)
    requires
        one_line(l),
    ensures
        line_scan(a + l) == (line_scan(a).0, line_scan(a).1 + l),
    decreases l.len(),
{
    if l.len() == 0 {
        assert(a + l =~= a);
        assert(line_scan(a).1 + l =~= line_scan(a).1);
    } else {
        let l0 = l.drop_last();
        lemma_scan_append(a, l0);
        assert((a + l).drop_last() =~= a + l0);
        assert((a + l).last() == l.last());
        assert((line_scan(a).1 + l0).push(l.last()) =~= line_scan(a).1 + l);
    }
}

proof fn lemma_scan_line(a: Seq<char>, l: Seq<char>)
    requires
        one_line(l),
        line_scan(a).1 == Seq::<char>::empty(),
    ensures
        line_scan(a + l + crlf()) == (line_scan(a).0.push(l), Seq::<char>::empty()),
{
    let lr = l + seq!['\r'];
    assert(one_line(lr)) by {
        assert forall|i: int| 0 <= i < lr.len() implies lr[i] != '\n' by {
            if i < l.len() {
                assert(lr[i] == l[i]);
            }
        }
    }
    lemma_scan_append(a, lr);
    let w = a + l + crlf();
    assert(w.drop_last() =~= a + lr);
    assert(w.last() == '\n');
    assert(Seq::<char>::empty() + lr =~= lr);
    assert(strip_cr(lr) =~= l);
}

proof fn lemma_scan_block(a: Seq<char>, rest: Seq<Seq<char>>, host: Seq<char>)
    requires
        line_scan(a).1 == Seq::<char>::empty(),
        forall|i: int| 0 <= i < rest.len() ==> one_line(#[trigger] rest[i]),
        one_line(host),
    ensures
        line_scan(a + header_block(rest, host)) == (
            line_scan(a).0 + rest.map_values(|l: Seq<char>| forwarded(l, host)),
            Seq::<char>::empty(),
        ),
    decreases rest.len(),
{
    if rest.len() == 0 {
        assert(a + header_block(rest, host) =~= a);
        assert(line_scan(a).0 + rest.map_values(|l: Seq<char>| forwarded(l, host)) =~= line_scan(a).0);
    } else {
        let dl = rest.drop_last();
        assert forall|i: int| 0 <= i < dl.len() implies one_line(#[trigger] dl[i]) by {
            assert(dl[i] == rest[i]);
        }
        lemma_scan_block(a, dl, host);
        let last = rest.last();
        assert(one_line(rest[rest.len() - 1]));
        let f = forwarded(last, host);
        assert(one_line(f)) by {
            reveal_strlit("Host: ");
            if is_host_header(last) {
                assert forall|i: int| 0 <= i < f.len() implies f[i] != '\n' by {
                    if i >= 6 {
                        assert(f[i] == host[i - 6]);
                    }
                }
            }
        }
        let b = a + header_block(dl, host);
        assert(header_line(last, host) =~= f + crlf());
        assert(a + header_block(rest, host) =~= b + f + crlf());
        lemma_scan_line(b, f);
        assert((line_scan(a).0 + dl.map_values(|l: Seq<char>| forwarded(l, host))).push(f)
            =~= line_scan(a).0 + rest.map_values(|l: Seq<char>| forwarded(l, host)));
    }
}

proof fn lemma_scan_one_line(s: Seq<char>)
    ensures
        forall|i: int| 0 <= i < line_scan(s).0.len() ==> one_line(#[trigger] line_scan(s).0[i]),
        one_line(line_scan(s).1),
    decreases s.len(),
{
    if s.len() > 0 {
        lemma_scan_one_line(s.drop_last());
        let (done, open) = line_scan(s.drop_last());
        if s.last() == '\n' {
            let c = strip_cr(open);
            assert(one_line(c)) by {
                assert forall|i: int| 0 <= i < c.len() implies c[i] != '\n' by {
                    assert(c[i] == open[i]);
                }
            }
            assert forall|i: int| 0 <= i < done.push(c).len() implies one_line(
                #[trigger] done.push(c)[i],
            ) by {
                if i < done.len() {
                    assert(done.push(c)[i] == done[i]);
                }
            }
        } else {
            let o = open.push(s.last());
            assert forall|i: int| 0 <= i < o.len() implies o[i] != '\n' by {
                if i < open.len() {
                    assert(o[i] == open[i]);
                }
            }
        }
    }
}

proof fn lemma_lines_one_line(s: Seq<char>)
    ensures
        forall|i: int| 0 <= i < text_lines(s).len() ==> one_line(#[trigger] text_lines(s)[i]),
{
    lemma_scan_one_line(s);
    let (done, open) = line_scan(s);
    if open.len() > 0 {
        assert forall|i: int| 0 <= i < text_lines(s).len() implies one_line(
            #[trigger] text_lines(s)[i],
        ) by {
            if i < done.len() {
                assert(text_lines(s)[i] == done[i]);
            }
        }
    }
}

proof fn lemma_word_scan_one_line(s: Seq<char>)
    requires
        one_line(s),
    ensures
        forall|i: int| 0 <= i < word_scan(s).0.len() ==> one_line(#[trigger] word_scan(s).0[i]),
        one_line(word_scan(s).1),
    decreases s.len(),
{
    if s.len() > 0 {
        let s0 = s.drop_last();
        assert forall|i: int| 0 <= i < s0.len() implies s0[i] != '\n' by {
            assert(s0[i] == s[i]);
        }
        lemma_word_scan_one_line(s0);
        let (done, open) = word_scan(s0);
        assert(s.last() == s[s.len() - 1]);
        if is_white_space(s.last()) {
            if open.len() > 0 {
                assert forall|i: int| 0 <= i < done.push(open).len() implies one_line(
                    #[trigger] done.push(open)[i],
                ) by {
                    if i < done.len() {
                        assert(done.push(open)[i] == done[i]);
                    }
                }
            }
        } else {
            let o = open.push(s.last());
            assert forall|i: int| 0 <= i < o.len() implies o[i] != '\n' by {
                if i < open.len() {
                    assert(o[i] == open[i]);
                }
            }
        }
    }
}

proof fn lemma_words_one_line(s: Seq<char>)
    requires
        one_line(s),
    ensures
        forall|i: int| 0 <= i < text_words(s).len() ==> one_line(#[trigger] text_words(s)[i]),
{
    lemma_word_scan_one_line(s);
    let (done, open) = word_scan(s);
    if open.len() > 0 {
        assert forall|i: int| 0 <= i < text_words(s).len() implies one_line(
            #[trigger] text_words(s)[i],
        ) by {
            if i < done.len() {
                assert(text_words(s)[i] == done[i]);
            }
        }
    }
}

proof fn lemma_error_path_one_line()
    ensures
        one_line(error_text(ERROR_1_FAILED_TO_GET_URI_PATH)),
{
    reveal_strlit("\x1b[31m");
    reveal_strlit("ERROR RAISED WITH CODE: ");
    reveal_strlit("!");
    reveal_strlit(" MESSAGE: ");
    reveal_strlit("Failed to get URI path");
    reveal_strlit("\x1b[0m");
    let d = int_decimal(1);
    lemma_nat_decimal(1);
    assert(d.len() == 1);
    assert('0' <= d[0] <= '9');
    let t = error_text(ERROR_1_FAILED_TO_GET_URI_PATH);
    let p = crate::helpers::ansi::RED@ + "ERROR RAISED WITH CODE: "@;
    let q = "!"@ + " MESSAGE: "@ + "Failed to get URI path"@ + crate::helpers::ansi::RESET@;
    assert(t =~= p + d + q);
    assert forall|i: int| 0 <= i < t.len() implies t[i] != '\n' by {
        if i < p.len() {
            assert(t[i] == p[i]);
        } else if i < p.len() + 1 {
            assert(t[i] == d[i - p.len()]);
        } else {
            assert(t[i] == q[i - p.len() - 1]);
        }
    }
}

proof fn lemma_char_index_bounds(s: Seq<char>, c: char, k: int)
    requires
        0 <= k,
    ensures
        k <= char_index(s, c, k) <= s.len() || (k > s.len() && char_index(s, c, k) == s.len()),
    decreases s.len() - k,
{
    if k < s.len() && s[k] != c {
        lemma_char_index_bounds(s, c, k + 1);
    }
}

proof fn lemma_path_one_line(url: Seq<char>)
    requires
        one_line(url),
    ensures
        one_line(request_path_of(url)),
{
    if has_prefix(url, "http://"@) || has_prefix(url, "https://"@) {
        reveal_strlit("http://");
        reveal_strlit("https://");
        if has_prefix(url, "http://"@) {
            assert(url.take(7)[4] == url[4]);
            assert(url.take(7)[5] == url[5]);
            assert(url.take(7)[6] == url[6]);
            lemma_separator_at_most(url, 0, 4);
        } else {
            assert(url.take(8)[5] == url[5]);
            assert(url.take(8)[6] == url[6]);
            assert(url.take(8)[7] == url[7]);
            lemma_separator_at_most(url, 0, 5);
        }
        let start = separator_index(url, 0) + 3;
        lemma_separator_bounds(url, start);
        let end = separator_index(url, start);
        let authority = url.subrange(start, end);
        let slash = char_index(authority, '/', 0);
        lemma_char_index_bounds(authority, '/', 0);
        if slash < authority.len() {
            let p = seq!['/'] + authority.skip(slash + 1);
            assert forall|i: int| 0 <= i < p.len() implies p[i] != '\n' by {
                if i > 0 {
                    assert(p[i] == authority[slash + i]);
                    assert(authority[slash + i] == url[start + slash + i]);
                }
            }
        } else {
            lemma_error_path_one_line();
        }
    }
}

proof fn lemma_head_one_line(first: Seq<char>)
    requires
        one_line(first),
    ensures
        ({
            let head = request_line(first).0;
            &&& head.len() >= 2
            &&& head.subrange(head.len() - 2, head.len() as int) == crlf()
            &&& one_line(head.subrange(0, head.len() - 2))
        }),
{
    let parts = text_words(first);
    let head = request_line(first).0;
    if parts.len() >= 3 {
        lemma_words_one_line(first);
        let path = request_path_of(parts[1]);
        assert(one_line(parts[0]));
        assert(one_line(parts[1]));
        assert(one_line(parts[2]));
        lemma_path_one_line(parts[1]);
        let x = parts[0] + seq![' '] + path + seq![' '] + parts[2];
        assert(head =~= x + crlf());
        assert(head.subrange(0, head.len() - 2) =~= x);
        assert forall|i: int| 0 <= i < x.len() implies x[i] != '\n' by {
            let a = parts[0].len();
            let b = a + 1 + path.len();
            if i < a {
                assert(x[i] == parts[0][i]);
            } else if i == a {
            } else if i < b {
                assert(x[i] == path[i - a - 1]);
            } else if i == b {
            } else {
                assert(x[i] == parts[2][i - b - 1]);
            }
        }
    } else {
        assert(head.subrange(0, head.len() - 2) =~= first);
    }
    assert(head.subrange(head.len() - 2, head.len() as int) =~= crlf());
}

/// Every line of a request after its request line is sent upstream, in order,
/// as a line of its own: a `Host` header as `Host: ` and the upstream host,
/// any other line as it was, blank lines and the lines after them included.
/// The rewritten request line comes first; a `Host` line follows the others
/// when the request had none, and an empty line ends the text.
pub proof fn law_every_line_is_forwarded(request: Seq<char>, host: Seq<char>)
    requires
        text_lines(request).len() > 0,
        one_line(host),
    ensures
        ({
            let ls = text_lines(request);
            let rest = ls.skip(1);
            let out = text_lines(rewritten_request(request, host).unwrap().0);
            &&& out.len() == rest.len() + (if has_host_header(rest) { 0int } else { 1int }) + 2
            &&& out[0] + crlf() == request_line(ls[0]).0
            &&& forall|i: int|
                0 <= i < rest.len() ==> #[trigger] out[i + 1] == if is_host_header(rest[i]) {
                    "Host: "@ + host
                } else {
                    rest[i]
                }
            &&& !has_host_header(rest) ==> out[rest.len() + 1int] == "Host: "@ + host
            &&& out.last() == Seq::<char>::empty()
        }),
{
    let ls = text_lines(request);
    lemma_lines_one_line(request);
    let rest = ls.skip(1);
    assert forall|i: int| 0 <= i < rest.len() implies one_line(#[trigger] rest[i]) by {
        assert(rest[i] == ls[i + 1]);
    }
    assert(one_line(ls[0]));
    let head = request_line(ls[0]).0;
    lemma_head_one_line(ls[0]);
    let x = head.subrange(0, head.len() - 2);
    assert(head =~= Seq::<char>::empty() + x + crlf());
    assert(line_scan(Seq::<char>::empty()) == (Seq::<Seq<char>>::empty(), Seq::<char>::empty()));
    lemma_scan_line(Seq::<char>::empty(), x);
    assert(line_scan(head) == (seq![x], Seq::<char>::empty()));
    lemma_scan_block(head, rest, host);
    let block = header_block(rest, host);
    let mapped = rest.map_values(|l: Seq<char>| forwarded(l, host));
    let body0 = head + block;
    let missing = if has_host_header(rest) {
        Seq::<char>::empty()
    } else {
        host_line(host)
    };
    let body = body0 + missing;
    let done = if has_host_header(rest) {
        seq![x] + mapped
    } else {
        (seq![x] + mapped).push("Host: "@ + host)
    };
    assert(line_scan(body) == (done, Seq::<char>::empty())) by {
        if has_host_header(rest) {
            assert(body =~= body0);
        } else {
            let hl = "Host: "@ + host;
            assert(one_line(hl)) by {
                reveal_strlit("Host: ");
                assert forall|i: int| 0 <= i < hl.len() implies hl[i] != '\n' by {
                    if i >= 6 {
                        assert(hl[i] == host[i - 6]);
                    }
                }
            }
            assert(body =~= body0 + hl + crlf());
            lemma_scan_line(body0, hl);
        }
    }
    let t = body + crlf();
    assert(t =~= rewritten_request(request, host).unwrap().0);
    assert(t =~= body + Seq::<char>::empty() + crlf());
    assert(one_line(Seq::<char>::empty()));
    lemma_scan_line(body, Seq::<char>::empty());
    let out = text_lines(t);
    assert(out == done.push(Seq::<char>::empty()));
    assert forall|i: int| 0 <= i < rest.len() implies #[trigger] out[i + 1] == if is_host_header(
        rest[i],
    ) {
        "Host: "@ + host
    } else {
        rest[i]
    } by {
        assert(out[i + 1] == mapped[i]);
    }
}

fn find_separator(s: &[char], from: usize) -> (k: usize)
    requires
        from <= s@.len(),
    ensures
        k == separator_index(s@, from as int),
        k <= s@.len(),
{
    let mut k: usize = from;
    while k < s.len() && s.len() - k >= 3
        invariant
            from <= k <= s@.len(),
            separator_index(s@, from as int) == separator_index(s@, k as int),
        decreases s.len() - k,
    {
        if s[k] == ':' && s[k + 1] == '/' && s[k + 2] == '/' {
            return k;
        }
        k = k + 1;
    }
    s.len()
}

/// The first index of `c` in `s`, or the length of `s` (see `char_index`).
pub fn find_char(s: &[char], c: char) -> (k: usize)
    ensures
        k == char_index(s@, c, 0),
        k <= s@.len(),
{
    let mut k: usize = 0;
    while k < s.len()
        invariant
            0 <= k <= s@.len(),
            char_index(s@, c, 0) == char_index(s@, c, k as int),
        decreases s.len() - k,
    {
        if s[k] == c {
            return k;
        }
        k = k + 1;
    }
    s.len()
}

/// The path to send upstream for a request URL (see `request_path_of`).
pub fn request_path(url: &[char]) -> (p: Vec<char>)
    ensures
        p@ == request_path_of(url@),
{
    if starts_with(url, &chars_of("http://")) || starts_with(url, &chars_of("https://")) {
        let first = find_separator(url, 0);
        proof {
            reveal_strlit("http://");
            reveal_strlit("https://");
            if has_prefix(url@, "http://"@) {
                assert(url@.take(7)[4] == url@[4]);
                assert(url@.take(7)[5] == url@[5]);
                assert(url@.take(7)[6] == url@[6]);
                lemma_separator_at_most(url@, 0, 4);
            } else {
                assert(url@.take(8)[5] == url@[5]);
                assert(url@.take(8)[6] == url@[6]);
                assert(url@.take(8)[7] == url@[7]);
                lemma_separator_at_most(url@, 0, 5);
            }
        }
        let start = first + 3;
        let end = find_separator(url, start);
        proof {
            lemma_separator_bounds(url@, start as int);
        }
        let authority = slice_chars(url, start, end);
        let slash = find_char(&authority, '/');
        if slash < authority.len() {
            let mut p: Vec<char> = Vec::new();
            p.push('/');
            push_all(&mut p, &slice_chars(&authority, slash + 1, authority.len()));
            p
        } else {
            error_chars(ERROR_1_FAILED_TO_GET_URI_PATH)
        }
    } else {
        slice_chars(url, 0, url.len())
    }
}

/// Whether a header line is a `Host` header (see `is_host_header`).
pub fn host_header(line: &[char]) -> (r: bool)
    ensures
        r == is_host_header(line@),
{
    line.len() >= 5 && (line[0] == 'h' || line[0] == 'H') && (line[1] == 'o' || line[1] == 'O')
        && (line[2] == 's' || line[2] == 'S') && (line[3] == 't' || line[3] == 'T') && line[4]
        == ':'
}

fn push_host_line(out: &mut Vec<char>, host: &[char])
    ensures
        final(out)@ == old(out)@ + host_line(host@),
{
    push_all(out, &chars_of("Host: "));
    push_all(out, host);
    out.push('\r');
    out.push('\n');
    proof {
        assert(final(out)@ =~= old(out)@ + host_line(host@));
    }
}

/// Rewrites the text of a request for the upstream server `clean_host`: the
/// rewritten request and its path, or `None` when the request has no line.
pub fn rewrite_request_text(request: &str, clean_host: &str) -> (r: Option<(String, String)>)
    ensures
        match rewritten_request(request@, clean_host@) {
            None => r is None,
            Some((text, path)) => r matches Some((t, p)) && t@ == text && p@ == path,
        },
{
    let req = chars_of(request);
    let host = chars_of(clean_host);
    let ls = lines(&req);
    if ls.len() == 0 {
        return None;
    }
    let ghost lsv = ls.deep_view();
    proof {
        assert(lsv[0] == ls@[0]@);
    }
    let parts = words(&ls[0]);
    let mut out: Vec<char> = Vec::new();
    let path: Vec<char>;
    if parts.len() >= 3 {
        proof {
            assert(parts.deep_view()[0] == parts@[0]@);
            assert(parts.deep_view()[1] == parts@[1]@);
            assert(parts.deep_view()[2] == parts@[2]@);
        }
        path = request_path(&parts[1]);
        push_all(&mut out, &parts[0]);
        out.push(' ');
        push_all(&mut out, &path);
        out.push(' ');
        push_all(&mut out, &parts[2]);
        out.push('\r');
        out.push('\n');
        proof {
            assert(out@ =~= request_line(lsv[0]).0);
        }
    } else {
        let mut p: Vec<char> = Vec::new();
        p.push('/');
        path = p;
        push_all(&mut out, &ls[0]);
        out.push('\r');
        out.push('\n');
        proof {
            assert(out@ =~= request_line(lsv[0]).0);
            assert(path@ =~= request_line(lsv[0]).1);
        }
    }
    let ghost head = out@;
    let ghost rest = lsv.skip(1);
    let mut has_host = false;
    let mut i: usize = 1;
    while i < ls.len()
        invariant
            1 <= i <= ls@.len(),
            lsv == ls.deep_view(),
            rest == lsv.skip(1),
            host@ == clean_host@,
            out@ == head + header_block(rest.take(i - 1), host@),
            has_host == has_host_header(rest.take(i - 1)),
        decreases ls.len() - i,
    {
        proof {
            assert(lsv[i as int] == ls@[i as int]@);
            assert(rest.take(i as int).drop_last() == rest.take(i - 1));
            assert(rest.take(i as int).last() == lsv[i as int]);
        }
        if host_header(&ls[i]) {
            push_host_line(&mut out, &host);
            has_host = true;
            proof {
                assert(rest.take(i as int)[i - 1] == lsv[i as int]);
            }
        } else {
            push_all(&mut out, &ls[i]);
            out.push('\r');
            out.push('\n');
            proof {
                assert(out@ =~= head + header_block(rest.take(i as int), host@));
                if has_host_header(rest.take(i as int)) {
                    let j = choose|j: int|
                        0 <= j < rest.take(i as int).len() && is_host_header(
                            #[trigger] rest.take(i as int)[j],
                        );
                    assert(rest.take(i as int)[j] == rest.take(i - 1)[j]);
                }
            }
        }
        proof {
            if !has_host {
                assert(!has_host_header(rest.take(i as int)));
            }
        }
        i = i + 1;
    }
    proof {
        assert(rest.take(i - 1) == rest);
    }
    if !has_host {
        push_host_line(&mut out, &host);
    }
    out.push('\r');
    out.push('\n');
    proof {
        assert(out@ =~= rewritten_request(request@, clean_host@).unwrap().0);
    }
    Some((string_of(&out), string_of(&path)))
}

/// The request as it is sent upstream and its path, for the bytes a client
/// sent: the rewritten text (see `rewritten_request`) of the bytes read as
/// UTF-8 (invalid sequences replaced), encoded as UTF-8; or, when that text has
/// no line, the bytes as they are, with path `/`.
pub open spec fn upstream_request(buffer: Seq<u8>, clean_host: Seq<char>) -> (Seq<u8>, Seq<char>) {
    match rewritten_request(utf8_lossy(buffer), clean_host) {
        None => (buffer, seq!['/']),
        Some((text, path)) => (encode_utf8(text), path),
    }
}

/// Rewrites the bytes a client sent for the upstream server `clean_host` (see
/// `upstream_request`).
pub fn rewrite_http_request(buffer: &[u8], clean_host: &str) -> (r: (Vec<u8>, String))
    ensures
        (r.0@, r.1@) == upstream_request(buffer@, clean_host@),
{
    let request = decode_lossy(buffer);
    match rewrite_request_text(request.as_str(), clean_host) {
        None => {
            let mut p: Vec<char> = Vec::new();
            p.push('/');
            (slice_to_vec(buffer), string_of(&p))
        },
        Some((text, path)) => (slice_to_vec(text.as_str().as_bytes()), path),
    }
}

} // verus!
