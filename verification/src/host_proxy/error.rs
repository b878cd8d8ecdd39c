//! The error codes of the forward proxy and the text that reports them.

use vstd::prelude::*;

use crate::helpers::error::{error_report_text, error_text};

verus! {

/// Failed to get the URI path.
pub const ERROR_1: i32 = 0x000001;

/// Failed to bind.
pub const ERROR_2: i32 = 0x000002;

/// Failed to read a file.
pub const ERROR_3: i32 = 0x000003;

/// Failed to fetch.
pub const ERROR_4: i32 = 0x000004;

/// Failed to perform or initialize the TLS handshake.
pub const ERROR_5: i32 = 0x000005;

/// Network write error.
pub const ERROR_6: i32 = 0x000006;

/// Network read error.
pub const ERROR_7: i32 = 0x000007;

/// Network connection error.
pub const ERROR_8: i32 = 0x000008;

/// Error passing messages between threads.
pub const ERROR_9: i32 = 0x000009;

/// Error joining threads (the code is hexadecimal 0x10, that is 16).
pub const ERROR_10: i32 = 0x00010;

/// Formats an error code as a coloured line: the code, then its message
/// (the codes and messages are those of `crate::helpers::error`).
pub fn fmt_error(error: i32) -> (s: String)
    ensures
        s@ == error_text(error),
{
    crate::helpers::error::fmt_error(error)
}

/// The text that reporting an error prints: the line of `fmt_error`, then
/// `extra` on the next line, indented and in gray.
pub fn error_report(error: i32, extra: &str) -> (s: String)
    ensures
        s@ == error_report_text(error, extra@),
{
    crate::helpers::error::error_report(error, extra)
}

} // verus!
