use frame_stream::command::ControlCommand;
use frame_stream::playback::on_stream_event;
use frame_stream::playback::playback_after_open;
use frame_stream::playback::press_pause;
use frame_stream::playback::press_play;
use frame_stream::playback::PlaybackState;
use frame_stream::playback::StreamEvent;
use frame_stream::worker::begin_stream;

#[test]
fn playback_starts_not_loaded() {
    assert_eq!(PlaybackState::default(), PlaybackState::NotLoaded);
}

#[test]
fn successful_open_lands_in_paused() {
    let outcome = begin_stream(true, 4, 4, 10_000, 10, String::new());
    let (setup, st) = playback_after_open(outcome);
    assert!(setup.is_some());
    assert_eq!(st, PlaybackState::Paused);
}

#[test]
fn failed_open_keeps_no_worker_and_reports_the_cause() {
    let detail = String::from("Failed to open video file: clip.mp4");
    let outcome = begin_stream(false, 0, 0, 0, 0, detail.clone());
    let (setup, st) = playback_after_open(outcome);
    assert!(setup.is_none(), "no worker may be kept after a failed open");
    assert_eq!(st, PlaybackState::Error(detail));
}

#[test]
fn play_and_pause_toggle_between_states() {
    let (st, cmd) = press_play(PlaybackState::Paused);
    assert_eq!(st, PlaybackState::Playing);
    assert_eq!(cmd, Some(ControlCommand::Play));
    let (st, cmd) = press_pause(st);
    assert_eq!(st, PlaybackState::Paused);
    assert_eq!(cmd, Some(ControlCommand::Pause));
}

#[test]
fn transport_controls_do_nothing_elsewhere() {
    let (st, cmd) = press_play(PlaybackState::NotLoaded);
    assert_eq!(st, PlaybackState::NotLoaded);
    assert!(cmd.is_none());
    let (st, cmd) = press_pause(PlaybackState::Finished);
    assert_eq!(st, PlaybackState::Finished);
    assert!(cmd.is_none());
}

#[test]
fn channel_close_finishes_active_playback() {
    assert_eq!(
        on_stream_event(PlaybackState::Playing, StreamEvent::Closed),
        PlaybackState::Finished
    );
    assert_eq!(
        on_stream_event(PlaybackState::Paused, StreamEvent::Closed),
        PlaybackState::Finished
    );
    assert_eq!(
        on_stream_event(PlaybackState::NotLoaded, StreamEvent::Closed),
        PlaybackState::NotLoaded
    );
}

#[test]
fn reported_failure_is_fatal_from_any_state() {
    let msg = String::from("Video processing error: bad frame");
    assert_eq!(
        on_stream_event(PlaybackState::Playing, StreamEvent::StreamFailed(msg.clone())),
        PlaybackState::Error(msg.clone())
    );
    assert_eq!(
        on_stream_event(PlaybackState::NotLoaded, StreamEvent::StreamFailed(msg.clone())),
        PlaybackState::Error(msg)
    );
}

#[test]
fn frames_and_idle_polls_keep_the_state() {
    assert_eq!(
        on_stream_event(PlaybackState::Playing, StreamEvent::FrameReady),
        PlaybackState::Playing
    );
    assert_eq!(
        on_stream_event(PlaybackState::Playing, StreamEvent::Idle),
        PlaybackState::Playing
    );
    assert_eq!(
        on_stream_event(PlaybackState::Finished, StreamEvent::FrameReady),
        PlaybackState::Finished
    );
}
