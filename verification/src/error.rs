//! The engine's error type.

use vstd::prelude::*;

verus! {

/// The single error kind of the engine.  It covers open failure,
/// frame-read failure and colour-conversion failure, and carries a
/// human-readable cause string.
#[derive(Debug, Clone)]
pub enum VideoReaderError {
    OpenCV(String),
}

impl VideoReaderError {
    /// The human-readable cause string.
    pub fn message(&self) -> (m: &String)
        ensures
            self matches VideoReaderError::OpenCV(s) && m == s,
    {
        match self {
            VideoReaderError::OpenCV(s) => s,
        }
    }
}

} // verus!
