use frame_stream::command::ControlCommand;
use frame_stream::error::VideoReaderError;
use frame_stream::frame::DecodedFrame;
use frame_stream::worker::begin_stream;
use frame_stream::worker::cycle_action;
use frame_stream::worker::drain_commands;
use frame_stream::worker::frame_step;
use frame_stream::worker::worker_continues;
use frame_stream::worker::CycleAction;
use frame_stream::worker::FrameStep;
use frame_stream::worker::WorkerState;

fn test_frame(ts: u64) -> DecodedFrame {
    DecodedFrame::from_rgb(2, 2, vec![0u8; 12], ts).expect("the buffer length matches")
}

#[test]
fn playing_a_fifty_frame_clip_delivers_all_frames_then_closes() {
    // a 10 fps, 5 second clip: 50 frames
    let setup = begin_stream(true, 320, 240, 10_000, 50, String::new()).expect("open succeeds");
    assert_eq!(setup.metadata.duration_ms(), 5_000);
    assert!(setup.initial_state.paused);

    // the consumer sends Play once; every later inbox is empty
    let (mut st, seeks) = drain_commands(setup.initial_state, &vec![ControlCommand::Play]);
    assert!(seeks.is_empty());

    let mut source = (0..50u64).map(|k| k * 100);
    let mut delivered: Vec<u64> = Vec::new();
    let mut closed_without_error = false;
    let mut cycles: u32 = 0;
    loop {
        cycles += 1;
        assert!(cycles <= 60, "the worker must reach end of stream");
        let (next, seeks) = drain_commands(st, &Vec::new());
        assert!(seeks.is_empty());
        st = next;
        match cycle_action(st, false) {
            CycleAction::Exit => panic!("no consumer disconnected"),
            CycleAction::Sleep => panic!("the worker was not paused"),
            CycleAction::DecodeFrame => {
                let outcome = match source.next() {
                    Some(ts) => Ok(Some(test_frame(ts))),
                    None => Ok(None),
                };
                let step = frame_step(outcome);
                let accepted = match &step {
                    FrameStep::Deliver(f) => {
                        delivered.push(f.timestamp_ms);
                        true
                    }
                    _ => false,
                };
                if !worker_continues(&step, accepted) {
                    closed_without_error = matches!(step, FrameStep::CloseStream);
                    break;
                }
            }
        }
    }

    assert_eq!(delivered.len(), 50);
    assert!(delivered.windows(2).all(|w| w[0] < w[1]), "timestamps must increase");
    assert!(closed_without_error, "end of stream closes with no trailing error");
}

#[test]
fn pause_before_play_yields_no_frames_until_play() {
    let setup = begin_stream(true, 320, 240, 10_000, 50, String::new()).expect("open succeeds");
    let (mut st, _) = drain_commands(setup.initial_state, &vec![ControlCommand::Pause]);
    for _ in 0..10 {
        let (next, _) = drain_commands(st, &Vec::new());
        st = next;
        assert_eq!(cycle_action(st, false), CycleAction::Sleep);
    }
    let (st, _) = drain_commands(st, &vec![ControlCommand::Play]);
    assert_eq!(cycle_action(st, false), CycleAction::DecodeFrame);
}

#[test]
fn pause_suspends_frame_production_at_the_next_cycle() {
    let (st, _) = drain_commands(WorkerState { paused: true }, &vec![ControlCommand::Play]);
    assert_eq!(cycle_action(st, false), CycleAction::DecodeFrame);
    let (st, _) = drain_commands(st, &vec![ControlCommand::Pause]);
    for _ in 0..5 {
        assert_eq!(cycle_action(st, false), CycleAction::Sleep);
    }
}

#[test]
fn queued_commands_are_all_applied_before_the_next_decision() {
    let cmds = vec![ControlCommand::Pause, ControlCommand::Seek(500)];
    let (st, seeks) = drain_commands(WorkerState { paused: false }, &cmds);
    assert!(st.paused, "a pause just before a seek must still be honoured");
    assert_eq!(seeks, vec![500]);
    assert_eq!(cycle_action(st, false), CycleAction::Sleep);
}

#[test]
fn seeks_never_terminate_the_worker() {
    // the outcome of the repositioning is no input to the control state:
    // a failed seek cannot change the decision either
    let cmds = vec![ControlCommand::Seek(1_000), ControlCommand::Seek(0)];
    let (st, seeks) = drain_commands(WorkerState { paused: false }, &cmds);
    assert_eq!(seeks, vec![1_000, 0]);
    assert!(!st.paused);
    assert_eq!(cycle_action(st, false), CycleAction::DecodeFrame);
    let (st, _) = drain_commands(WorkerState { paused: true }, &cmds);
    assert_eq!(cycle_action(st, false), CycleAction::Sleep);
}

#[test]
fn consumer_disconnect_exits_whatever_the_state() {
    assert_eq!(cycle_action(WorkerState { paused: true }, true), CycleAction::Exit);
    assert_eq!(cycle_action(WorkerState { paused: false }, true), CycleAction::Exit);
}

#[test]
fn rejected_frame_send_exits_the_loop() {
    let step = frame_step(Ok(Some(test_frame(0))));
    assert!(!worker_continues(&step, false));
}

#[test]
fn decode_error_is_fatal_and_carries_its_cause() {
    let outcome = Err(VideoReaderError::OpenCV(String::from("decode failed")));
    let step = frame_step(outcome);
    match &step {
        FrameStep::Fail(VideoReaderError::OpenCV(msg)) => assert_eq!(msg, "decode failed"),
        _ => panic!("a decode error must become a fatal step"),
    }
    assert!(!worker_continues(&step, false));
}

#[test]
fn unopened_source_is_rejected_synchronously() {
    let detail = String::from("Failed to open video file: missing.mp4");
    match begin_stream(false, 0, 0, 0, 0, detail) {
        Err(VideoReaderError::OpenCV(msg)) => {
            assert!(msg.contains("Failed to open video file"));
        }
        Ok(_) => panic!("an unopened source must be rejected"),
    }
}
