//! ANSI escape sequences that colour terminal output.

use vstd::prelude::*;

verus! {

pub const RED: &'static str = "\x1b[31m";

pub const GREEN: &'static str = "\x1b[32m";

pub const MAGENTA: &'static str = "\x1b[35m";

pub const GRAY: &'static str = "\x1b[90m";

pub const ORANGE: &'static str = "\x1b[38;5;208m";

pub const RESET: &'static str = "\x1b[0m";

} // verus!
