//! The consumer-facing playback state machine.
//!
//! The worker itself has no notion of these states; the consumer infers
//! them from what the two channels do.  A successful open lands in
//! `Paused`; `Play` and `Pause` toggle between `Paused` and `Playing`; the
//! frame channel closing without a trailing error finishes playback; a
//! trailing error - or a synchronous open failure - lands in `Error`.

use vstd::prelude::*;

use crate::command::ControlCommand;
use crate::error::VideoReaderError;
use crate::worker::StreamSetup;

verus! {

/// The consumer's view of playback.
#[derive(Debug, Clone, PartialEq, Eq)]
pub enum PlaybackState {
    /// No source has been opened yet.
    NotLoaded,
    /// A source is open; decoding is suspended.
    Paused,
    /// A source is open and frames are being delivered.
    Playing,
    /// The stream ended normally.
    Finished,
    /// Opening or decoding failed; carries the cause.
    Error(String),
}

impl Default for PlaybackState {
    /// Before any source is opened, nothing is loaded.
    fn default() -> (r: Self)
        ensures
            r is NotLoaded,
    {
        PlaybackState::NotLoaded
    }
}

/// One poll of the frame channel, as the consumer sees it.
#[derive(Debug)]
pub enum StreamEvent {
    /// A decoded frame arrived; its pixels go to the presentation layer.
    FrameReady,
    /// The worker reported a fatal failure and will close the channel.
    StreamFailed(String),
    /// The channel closed: the worker is gone.
    Closed,
    /// Nothing arrived this poll.
    Idle,
}

/// The playback state after one poll of the frame channel: a reported
/// failure moves to `Error` from any state, a closed channel finishes an
/// active (paused or playing) playback, and anything else changes nothing.
pub open spec fn spec_on_stream_event(st: PlaybackState, ev: StreamEvent) -> PlaybackState {
    match ev {
        StreamEvent::FrameReady => st,
        StreamEvent::StreamFailed(msg) => PlaybackState::Error(msg),
        StreamEvent::Closed => if st is Playing || st is Paused {
            PlaybackState::Finished
        } else {
            st
        },
        StreamEvent::Idle => st,
    }
}

/// Advances the playback state on one poll of the frame channel.  Closing
/// with no trailing error is the normal end of stream; an error value
/// arriving is fatal and carries its cause into the state.
pub fn on_stream_event(st: PlaybackState, ev: StreamEvent) -> (r: PlaybackState)
    ensures
        r == spec_on_stream_event(st, ev),
{
    match ev {
        StreamEvent::FrameReady => st,
        StreamEvent::StreamFailed(msg) => PlaybackState::Error(msg),
        StreamEvent::Closed => match st {
            PlaybackState::Playing => PlaybackState::Finished,
            PlaybackState::Paused => PlaybackState::Finished,
            other => other,
        },
        StreamEvent::Idle => st,
    }
}

/// Splits the outcome of opening a stream: on success the setup is kept
/// and playback starts paused; on failure nothing is kept - there is no
/// worker to keep - and the state carries the cause.
pub fn playback_after_open(outcome: Result<StreamSetup, VideoReaderError>) -> (r: (
    Option<StreamSetup>,
    PlaybackState,
))
    ensures
        outcome matches Ok(s) ==> r.0 == Some(s) && r.1 is Paused,
        outcome matches Err(e) ==> r.0 is None && (e matches VideoReaderError::OpenCV(m)
            && r.1 == PlaybackState::Error(m)),
{
    match outcome {
        Ok(s) => (Some(s), PlaybackState::Paused),
        Err(VideoReaderError::OpenCV(m)) => (None, PlaybackState::Error(m)),
    }
}

/// The play control, shown while paused: sends `Play` and moves to
/// `Playing`.  In any other state it does nothing and sends nothing.
pub fn press_play(st: PlaybackState) -> (r: (PlaybackState, Option<ControlCommand>))
    ensures
        st is Paused ==> r.0 is Playing && r.1 == Some(ControlCommand::Play),
        !(st is Paused) ==> r.0 == st && r.1 is None,
{
    match st {
        PlaybackState::Paused => (PlaybackState::Playing, Some(ControlCommand::Play)),
        other => (other, None),
    }
}

/// The pause control, shown while playing: sends `Pause` and moves to
/// `Paused`.  In any other state it does nothing and sends nothing.
pub fn press_pause(st: PlaybackState) -> (r: (PlaybackState, Option<ControlCommand>))
    ensures
        st is Playing ==> r.0 is Paused && r.1 == Some(ControlCommand::Pause),
        !(st is Playing) ==> r.0 == st && r.1 is None,
{
    match st {
        PlaybackState::Playing => (PlaybackState::Paused, Some(ControlCommand::Pause)),
        other => (other, None),
    }
}

} // verus!
