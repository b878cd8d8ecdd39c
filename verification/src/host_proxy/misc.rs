//! Protocols and host names.

use vstd::prelude::*;

use crate::text::{chars_of, push_all, string_of};

verus! {

/// The protocol of a URL.
#[derive(PartialEq, Eq, Structural, Clone, Copy)]
pub enum Protocol {
    Http,
    Https,
}

/// How a protocol is displayed.
pub open spec fn protocol_name(protocol: Protocol) -> Seq<char> {
    match protocol {
        Protocol::Http => "Http"@,
        Protocol::Https => "Https"@,
    }
}

/// The scheme of a protocol: its name in lower case.
pub open spec fn scheme_of(protocol: Protocol) -> Seq<char> {
    match protocol {
        Protocol::Http => "http"@,
        Protocol::Https => "https"@,
    }
}

impl Protocol {
    /// The protocol as its `Display` writes it.
    pub fn to_display_string(&self) -> (s: String)
        ensures
            s@ == protocol_name(*self),
    {
        match self {
            Protocol::Http => string_of(&chars_of("Http")),
            Protocol::Https => string_of(&chars_of("Https")),
        }
    }
}

/// The URL of a host: the protocol's scheme, `://` and the host.
pub fn format_hostname(protocol: Protocol, raw: String) -> (s: String)
    ensures
        s@ == scheme_of(protocol) + "://"@ + raw@,
{
    let mut t = match protocol {
        Protocol::Http => chars_of("http"),
        Protocol::Https => chars_of("https"),
    };
    push_all(&mut t, &chars_of("://"));
    push_all(&mut t, &chars_of(raw.as_str()));
    string_of(&t)
}

} // verus!
