//! The record of a request that the proxy forwarded.

use vstd::prelude::*;

use crate::text::{chars_of, nat_decimal, push_all, string_of, u128_decimal};

verus! {

/// LoadThing's licence notice.
pub const LICENSE_MESSAGE: &'static str = "LoadThing Copyright (C) 2025 Kinetic Labs <https://github.com/Kinetic-Labs>
This program comes with ABSOLUTELY NO WARRANTY.
This is free software, and you are welcome to redistribute it under certain conditions.

Please see GNU GPL-3 <https://www.gnu.org/licenses/gpl-3.0.en.html> for more details";

/// A request forwarded upstream: where it went, its path, the client's address
/// and the time in milliseconds until it was sent.
pub struct Request {
    pub location: String,
    pub target: String,
    pub path: String,
    pub ip: String,
    pub time: u128,
}

/// A request record as plain values.
pub struct RequestView {
    pub location: Seq<char>,
    pub target: Seq<char>,
    pub path: Seq<char>,
    pub ip: Seq<char>,
    pub time: u128,
}

impl View for Request {
    type V = RequestView;

    open spec fn view(&self) -> RequestView {
        RequestView {
            location: self.location@,
            target: self.target@,
            path: self.path@,
            ip: self.ip@,
            time: self.time,
        }
    }
}

/// How a request record is displayed.
pub open spec fn request_text(r: RequestView) -> Seq<char> {
    "Request { location: "@ + r.location + ", target: "@ + r.target + ", path: "@ + r.path
        + ", ip: "@ + r.ip + " time: "@ + nat_decimal(r.time as nat) + "ms }"@
}

impl Request {
    /// The request as its `Display` writes it.
    pub fn to_display_string(&self) -> (s: String)
        ensures
            s@ == request_text(self@),
    {
        let mut t = chars_of("Request { location: ");
        push_all(&mut t, &chars_of(self.location.as_str()));
        push_all(&mut t, &chars_of(", target: "));
        push_all(&mut t, &chars_of(self.target.as_str()));
        push_all(&mut t, &chars_of(", path: "));
        push_all(&mut t, &chars_of(self.path.as_str()));
        push_all(&mut t, &chars_of(", ip: "));
        push_all(&mut t, &chars_of(self.ip.as_str()));
        push_all(&mut t, &chars_of(" time: "));
        push_all(&mut t, &u128_decimal(self.time));
        push_all(&mut t, &chars_of("ms }"));
        string_of(&t)
    }
}

} // verus!
