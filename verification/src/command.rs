//! Control commands a consumer sends to the streaming worker.

use vstd::prelude::*;

verus! {

/// A fire-and-forget playback command.  `Seek` carries the requested
/// position in milliseconds from the start of the stream.
#[derive(Clone, Copy, Debug, PartialEq, Eq, Structural)]
pub enum ControlCommand {
    /// Resume decoding.
    Play,
    /// Suspend decoding, keeping the current position.
    Pause,
    /// Ask the decoder to jump to the given timestamp (best effort).
    Seek(u64),
}

} // verus!
