//! The record of a request that the forward proxy handled.

use vstd::prelude::*;

use crate::text::{chars_of, nat_decimal, push_all, string_of, u128_decimal};

verus! {

/// A request: where it went, its path and the time it took in milliseconds.
#[derive(Clone)]
pub struct Request {
    pub location: String,
    pub target: String,
    pub path: String,
    pub time: u128,
}

/// How a request record is displayed.
pub open spec fn request_text(location: Seq<char>, target: Seq<char>, path: Seq<char>, time: u128) -> Seq<char> {
    "Request { location: "@ + location + ", target: "@ + target + ", path "@ + path + ", time "@
        + nat_decimal(time as nat) + "ms }"@
}

impl Request {
    /// The request as its `Display` writes it.
    pub fn to_display_string(&self) -> (s: String)
        ensures
            s@ == request_text(self.location@, self.target@, self.path@, self.time),
    {
        let mut t = chars_of("Request { location: ");
        push_all(&mut t, &chars_of(self.location.as_str()));
        push_all(&mut t, &chars_of(", target: "));
        push_all(&mut t, &chars_of(self.target.as_str()));
        push_all(&mut t, &chars_of(", path "));
        push_all(&mut t, &chars_of(self.path.as_str()));
        push_all(&mut t, &chars_of(", time "));
        push_all(&mut t, &u128_decimal(self.time));
        push_all(&mut t, &chars_of("ms }"));
        string_of(&t)
    }
}

} // verus!
