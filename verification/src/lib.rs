//! A readiness gate for supervised server processes.
//!
//! The library holds the logic of a startup supervisor: a small expression
//! language of readiness rules (timers, TCP and HTTP reachability, log-line
//! patterns), the parsers for duration literals and rule expressions, the
//! state machines that drive each readiness probe and their AND/OR
//! composition, the splitter that turns raw child output into log lines, and
//! the retry policy that decides when a failed child is relaunched.  The
//! asynchronous plumbing around it (process spawning, sockets, timers) lives
//! outside and only feeds plain values in and out.

pub mod duration;
pub mod lines;
pub mod parser;
pub mod pattern;
pub mod probes;
pub mod rules;
pub mod supervisor;
pub mod text;

use vstd::prelude::*;

verus! {

/// A grammar error: the input is not a valid literal or rule expression.
/// `pos` points at the byte where parsing stopped.
#[derive(Debug, Clone, Copy, PartialEq, Eq, Structural)]
pub struct ParseError {
    pub pos: usize,
}

} // verus!
