//! Core logic of a paced video frame-streaming engine.
//!
//! A background worker owns a decoder, drains a control inbox once per
//! cycle, and either idles or decodes and emits one timestamped RGB frame,
//! sleeping a fixed pacing interval between cycles.  This crate holds the
//! verified heart of that engine: the metadata and pacing arithmetic, the
//! pixel-buffer invariants and colour-layout conversion, and the control
//! and playback state machines.  The surrounding process glue (threads,
//! channels, the decoding backend, the user interface) stays outside and
//! drives these functions.

pub mod command;
pub mod error;
pub mod frame;
pub mod metadata;
pub mod pixel;
pub mod playback;
pub mod worker;
