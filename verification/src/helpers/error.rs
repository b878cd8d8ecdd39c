//! Error codes and the text that reports them.

use vstd::prelude::*;

use crate::helpers::ansi;
use crate::text::{
    chars_of, i32_decimal, int_decimal, law_i32_decimal_round_trip, lemma_nat_decimal, push_all,
    string_of,
};

verus! {

/// Failed to get the URI path.
pub const ERROR_1_FAILED_TO_GET_URI_PATH: i32 = 0x000001;

/// Failed to bind.
pub const ERROR_2_BIND_ERROR: i32 = 0x000002;

/// Failed to read a file.
pub const ERROR_3_READ_FILE_ERROR: i32 = 0x000003;

/// Failed to fetch.
pub const ERROR_4_FETCH_ERROR: i32 = 0x000004;

/// Failed to perform or initialize the TLS handshake.
pub const ERROR_5_FAILURE_TLS_HANDSHAKE: i32 = 0x000005;

/// Network write error.
pub const ERROR_6_NET_WRITE_ERROR: i32 = 0x000006;

/// Network read error.
pub const ERROR_7_NET_READ_ERROR: i32 = 0x000007;

/// Network connection error.
pub const ERROR_8_NET_CONN_ERROR: i32 = 0x000008;

/// Error passing messages between threads.
pub const ERROR_9_THREAD_MESSAGING_ERROR: i32 = 0x000009;

/// Error joining threads (the code is hexadecimal 0x10, that is 16).
pub const ERROR_10_THREAD_JOIN_ERROR: i32 = 0x00010;

/// The message that goes with an error code.
pub open spec fn error_message(code: i32) -> Seq<char> {
    if code == ERROR_1_FAILED_TO_GET_URI_PATH {
        "Failed to get URI path"@
    } else if code == ERROR_2_BIND_ERROR {
        "Failed to bind address"@
    } else if code == ERROR_3_READ_FILE_ERROR {
        "Failed to read file!"@
    } else if code == ERROR_4_FETCH_ERROR {
        "Failed to fetch!"@
    } else if code == ERROR_5_FAILURE_TLS_HANDSHAKE {
        "Failed to preform and/or initialize TLS handshake!"@
    } else if code == ERROR_6_NET_WRITE_ERROR {
        "Failed to write!"@
    } else if code == ERROR_7_NET_READ_ERROR {
        "Failed to read!"@
    } else if code == ERROR_8_NET_CONN_ERROR {
        "Failed to connect!"@
    } else if code == ERROR_9_THREAD_MESSAGING_ERROR {
        "Failed to communicate between threads!"@
    } else if code == ERROR_10_THREAD_JOIN_ERROR {
        "Failed to join thread(s)!"@
    } else {
        "UKNOWN ERROR WITH CODE: "@ + int_decimal(code as int) + "!"@
    }
}

/// The coloured line that reports an error code.
pub open spec fn error_text(code: i32) -> Seq<char> {
    ansi::RED@ + "ERROR RAISED WITH CODE: "@ + int_decimal(code as int) + "!"@ + " MESSAGE: "@
        + error_message(code) + ansi::RESET@
}

/// The full report of an error: its line, then the extra detail, indented and in gray.
pub open spec fn error_report_text(code: i32, extra: Seq<char>) -> Seq<char> {
    error_text(code) + "\n  "@ + ansi::GRAY@ + extra + ansi::RESET@
}

proof fn lemma_no_bang_in_decimal(n: i32)
    ensures
        forall|i: int| 0 <= i < int_decimal(n as int).len() ==> int_decimal(n as int)[i] != '!',
{
    if n < 0 {
        lemma_nat_decimal((-n) as nat);
        let d = nat_decimal_of_abs(n);
        assert forall|i: int| 0 <= i < int_decimal(n as int).len() implies int_decimal(
            n as int,
        )[i] != '!' by {
            if i > 0 {
                assert(int_decimal(n as int)[i] == d[i - 1]);
            }
        }
    } else {
        lemma_nat_decimal(n as nat);
    }
}

spec fn nat_decimal_of_abs(n: i32) -> Seq<char> {
    crate::text::nat_decimal((-n) as nat)
}

/// Distinct error codes are reported by distinct texts (each text holds its
/// code in decimal, ended by `!`).
pub proof fn law_error_texts_distinct(a: i32, b: i32)
    ensures
        error_text(a) == error_text(b) <==> a == b,
{
    if error_text(a) == error_text(b) {
        reveal_strlit("!");
        let p = ansi::RED@ + "ERROR RAISED WITH CODE: "@;
        let pl = p.len() as int;
        let da = int_decimal(a as int);
        let db = int_decimal(b as int);
        let ta = error_text(a);
        lemma_no_bang_in_decimal(a);
        lemma_no_bang_in_decimal(b);
        assert(ta =~= p + da + ("!"@ + " MESSAGE: "@ + error_message(a) + ansi::RESET@));
        assert(ta =~= p + db + ("!"@ + " MESSAGE: "@ + error_message(b) + ansi::RESET@));
        if da.len() < db.len() {
            assert(ta[pl + da.len()] == '!');
            assert(ta[pl + da.len()] == db[da.len() as int]);
        } else if db.len() < da.len() {
            assert(ta[pl + db.len()] == '!');
            assert(ta[pl + db.len()] == da[db.len() as int]);
        }
        assert(da =~= ta.subrange(pl, pl + da.len()));
        assert(db =~= ta.subrange(pl, pl + db.len()));
        law_i32_decimal_round_trip(a);
        law_i32_decimal_round_trip(b);
    }
}

fn message_chars(error: i32) -> (m: Vec<char>)
    ensures
        m@ == error_message(error),
{
    if error == ERROR_1_FAILED_TO_GET_URI_PATH {
        chars_of("Failed to get URI path")
    } else if error == ERROR_2_BIND_ERROR {
        chars_of("Failed to bind address")
    } else if error == ERROR_3_READ_FILE_ERROR {
        chars_of("Failed to read file!")
    } else if error == ERROR_4_FETCH_ERROR {
        chars_of("Failed to fetch!")
    } else if error == ERROR_5_FAILURE_TLS_HANDSHAKE {
        chars_of("Failed to preform and/or initialize TLS handshake!")
    } else if error == ERROR_6_NET_WRITE_ERROR {
        chars_of("Failed to write!")
    } else if error == ERROR_7_NET_READ_ERROR {
        chars_of("Failed to read!")
    } else if error == ERROR_8_NET_CONN_ERROR {
        chars_of("Failed to connect!")
    } else if error == ERROR_9_THREAD_MESSAGING_ERROR {
        chars_of("Failed to communicate between threads!")
    } else if error == ERROR_10_THREAD_JOIN_ERROR {
        chars_of("Failed to join thread(s)!")
    } else {
        let mut m = chars_of("UKNOWN ERROR WITH CODE: ");
        push_all(&mut m, &i32_decimal(error));
        push_all(&mut m, &chars_of("!"));
        m
    }
}

/// The characters of `fmt_error(error)`.
pub fn error_chars(error: i32) -> (t: Vec<char>)
    ensures
        t@ == error_text(error),
{
    let mut t = chars_of(ansi::RED);
    push_all(&mut t, &chars_of("ERROR RAISED WITH CODE: "));
    push_all(&mut t, &i32_decimal(error));
    push_all(&mut t, &chars_of("!"));
    push_all(&mut t, &chars_of(" MESSAGE: "));
    push_all(&mut t, &message_chars(error));
    push_all(&mut t, &chars_of(ansi::RESET));
    t
}

/// Formats an error code as a coloured line: the code, then its message
/// (or, for a code that has none, a line that calls it unknown).
pub fn fmt_error(error: i32) -> (s: String)
    ensures
        s@ == error_text(error),
{
    string_of(&error_chars(error))
}

/// The text that reporting an error prints: the line of `fmt_error`, then
/// `extra` on the next line, indented and in gray.
pub fn error_report(error: i32, extra: &str) -> (s: String)
    ensures
        s@ == error_report_text(error, extra@),
{
    let mut t = error_chars(error);
    push_all(&mut t, &chars_of("\n  "));
    push_all(&mut t, &chars_of(ansi::GRAY));
    push_all(&mut t, &chars_of(extra));
    push_all(&mut t, &chars_of(ansi::RESET));
    string_of(&t)
}

} // verus!
