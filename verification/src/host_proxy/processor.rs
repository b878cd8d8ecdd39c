//! What the processor prints of each request.

use vstd::prelude::*;

use super::data::{request_text, Request};
use super::structure::FeaturesConfig;
use crate::text::{chars_of, nat_decimal, push_all, string_of, u128_decimal};

verus! {

/// The lines printed for a request: the request when logging is on, then its
/// time when timing is on.
pub open spec fn process_lines(request: Request, config: FeaturesConfig) -> Seq<Seq<char>> {
    let log = if config.log {
        seq![
            "New request: "@ + request_text(
                request.location@,
                request.target@,
                request.path@,
                request.time,
            ),
        ]
    } else {
        Seq::empty()
    };
    let time = if config.time {
        seq!["  Time taken: "@ + nat_decimal(request.time as nat)]
    } else {
        Seq::empty()
    };
    log + time
}

/// The lines to print for a request (see `process_lines`).
pub fn process(request: &Request, config: &FeaturesConfig) -> (lines: Vec<String>)
    ensures
        lines.deep_view() == process_lines(*request, *config),
{
    let mut lines: Vec<String> = Vec::new();
    if config.log {
        let mut t = chars_of("New request: ");
        push_all(&mut t, &chars_of(request.to_display_string().as_str()));
        lines.push(string_of(&t));
    }
    if config.time {
        let mut t = chars_of("  Time taken: ");
        push_all(&mut t, &u128_decimal(request.time));
        lines.push(string_of(&t));
    }
    proof {
        assert(lines.deep_view() =~= process_lines(*request, *config));
    }
    lines
}

} // verus!
