//! One observed line of tool output, tagged by the stream it came from.

use vstd::prelude::*;

verus! {

/// Which of the two captured streams a line came from.
#[derive(Clone, Copy, PartialEq, Eq, Structural, Debug)]
pub enum StreamKind {
    Stdout,
    Stderr,
}

/// One complete line of tool output. The relay produces one event per line,
/// in the order the lines appeared on their stream. The line holds the raw
/// bytes as read from the stream, without the terminating newline.
pub struct OutputEvent {
    pub line: Vec<u8>,
    pub stream: StreamKind,
}

} // verus!
