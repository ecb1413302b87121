//! The streaming worker's control state machine.
//!
//! The worker runs one cycle per pacing interval: it drains its control
//! inbox in arrival order, exits if the consumer has disconnected, idles
//! while paused, and otherwise decodes and emits exactly one frame.  The
//! decisions of that loop live here as verified functions; the loop's
//! surroundings (the thread, the channels, the sleeps, the decoding
//! backend) call them and perform the actions they return.

use vstd::prelude::*;

use crate::command::ControlCommand;
use crate::error::VideoReaderError;
use crate::frame::DecodedFrame;
use crate::metadata::StreamMetadata;
use crate::metadata::duration_ms_of;
use crate::metadata::effective_rate_milli;
use crate::metadata::interval_ms_of;

verus! {

/// The worker's whole mutable control state: whether decoding is
/// suspended.  A worker starts paused and never plays before an explicit
/// `Play`.
#[derive(Clone, Copy, Debug, PartialEq, Eq, Structural)]
pub struct WorkerState {
    /// True while decoding is suspended.
    pub paused: bool,
}

/// The control state after one command: `Play` clears the paused flag,
/// `Pause` sets it, and a repositioning request changes nothing here.
pub open spec fn spec_apply_command(st: WorkerState, c: ControlCommand) -> WorkerState {
    match c {
        ControlCommand::Play => WorkerState { paused: false },
        ControlCommand::Pause => WorkerState { paused: true },
        ControlCommand::Seek(_) => st,
    }
}

/// The control state after a whole batch of commands, applied in order.
pub open spec fn spec_apply_commands(st: WorkerState, cs: Seq<ControlCommand>) -> WorkerState
    decreases cs.len(),
{
    if cs.len() == 0 {
        st
    } else {
        spec_apply_commands(spec_apply_command(st, cs[0]), cs.subrange(1, cs.len() as int))
    }
}

/// The repositioning targets a batch of commands requests, in order.
pub open spec fn seek_targets(cs: Seq<ControlCommand>) -> Seq<u64>
    decreases cs.len(),
{
    if cs.len() == 0 {
        Seq::empty()
    } else {
        let rest = seek_targets(cs.subrange(1, cs.len() as int));
        match cs[0] {
            ControlCommand::Seek(ms) => seq![ms] + rest,
            _ => rest,
        }
    }
}

proof fn lemma_apply_commands_snoc(st: WorkerState, cs: Seq<ControlCommand>, c: ControlCommand)
    ensures
        spec_apply_commands(st, cs.push(c)) == spec_apply_command(
            spec_apply_commands(st, cs),
            c,
        ),
    decreases cs.len(),
{
    if cs.len() == 0 {
        assert(cs.push(c)[0] == c);
        assert(cs.push(c).subrange(1, 1) =~= Seq::<ControlCommand>::empty());
        assert(spec_apply_commands(spec_apply_command(st, c), Seq::<ControlCommand>::empty())
            == spec_apply_command(st, c));
    } else {
        assert(cs.push(c)[0] == cs[0]);
        assert(cs.push(c).subrange(1, cs.len() as int + 1) =~= cs.subrange(1, cs.len() as int).push(c));
        lemma_apply_commands_snoc(spec_apply_command(st, cs[0]), cs.subrange(1, cs.len() as int), c);
    }
}

proof fn lemma_seek_targets_snoc(cs: Seq<ControlCommand>, c: ControlCommand)
    ensures
        seek_targets(cs.push(c)) == seek_targets(cs) + (match c {
            ControlCommand::Seek(ms) => seq![ms],
            _ => Seq::<u64>::empty(),
        }),
    decreases cs.len(),
{
    if cs.len() == 0 {
        assert(cs.push(c)[0] == c);
        assert(cs.push(c).subrange(1, 1) =~= Seq::<ControlCommand>::empty());
        assert(seek_targets(Seq::<ControlCommand>::empty()) =~= Seq::<u64>::empty());
        assert(seek_targets(cs.push(c)) =~= seek_targets(cs) + (match c {
            ControlCommand::Seek(ms) => seq![ms],
            _ => Seq::<u64>::empty(),
        }));
    } else {
        assert(cs.push(c)[0] == cs[0]);
        assert(cs.push(c).subrange(1, cs.len() as int + 1) =~= cs.subrange(1, cs.len() as int).push(c));
        lemma_seek_targets_snoc(cs.subrange(1, cs.len() as int), c);
        assert(seek_targets(cs.push(c)) =~= seek_targets(cs) + (match c {
            ControlCommand::Seek(ms) => seq![ms],
            _ => Seq::<u64>::empty(),
        }));
    }
}

/// Applies one command to the control state.  A `Seek` leaves the state
/// untouched and surfaces its target for the decoder to act on.
pub fn apply_command(st: WorkerState, c: &ControlCommand) -> (r: (WorkerState, Option<u64>))
    ensures
        r.0 == spec_apply_command(st, *c),
        r.1 == (match *c {
            ControlCommand::Seek(ms) => Some(ms),
            _ => None::<u64>,
        }),
{
    match c {
        ControlCommand::Play => (WorkerState { paused: false }, None),
        ControlCommand::Pause => (WorkerState { paused: true }, None),
        ControlCommand::Seek(ms) => (st, Some(*ms)),
    }
}

/// Drains one cycle's pending commands in arrival order: the returned
/// state reflects every `Play` and `Pause`, and the returned list holds
/// every requested repositioning target, oldest first.
pub fn drain_commands(st: WorkerState, cmds: &Vec<ControlCommand>) -> (r: (WorkerState, Vec<u64>))
    ensures
        r.0 == spec_apply_commands(st, cmds@),
        r.1@ == seek_targets(cmds@),
{
    let mut cur = st;
    let mut seeks: Vec<u64> = Vec::new();
    let mut i: usize = 0;
    proof {
        assert(cmds@.take(0) =~= Seq::<ControlCommand>::empty());
    }
    while i < cmds.len()
        invariant
            i <= cmds@.len(),
            cur == spec_apply_commands(st, cmds@.take(i as int)),
            seeks@ == seek_targets(cmds@.take(i as int)),
        decreases cmds@.len() - i,
    {
        proof {
            assert(cmds@.take(i as int + 1) =~= cmds@.take(i as int).push(cmds@[i as int]));
            lemma_apply_commands_snoc(st, cmds@.take(i as int), cmds@[i as int]);
            lemma_seek_targets_snoc(cmds@.take(i as int), cmds@[i as int]);
        }
        let (next, seek) = apply_command(cur, &cmds[i]);
        cur = next;
        match seek {
            Some(ms) => {
                seeks.push(ms);
                proof {
                    assert(seeks@ =~= seek_targets(cmds@.take(i as int + 1)));
                }
            },
            None => {
                proof {
                    assert(seeks@ =~= seek_targets(cmds@.take(i as int + 1)));
                }
            },
        }
        i = i + 1;
    }
    proof {
        assert(cmds@.take(cmds@.len() as int) =~= cmds@);
    }
    (cur, seeks)
}

/// What the worker does in one cycle, once its inbox is drained.
#[derive(Clone, Copy, Debug, PartialEq, Eq, Structural)]
pub enum CycleAction {
    /// Leave the loop and release the decoder: the consumer is gone.
    Exit,
    /// Decode and emit one frame, then sleep one pacing interval.
    DecodeFrame,
    /// Idle this cycle: sleep one pacing interval and poll again.
    Sleep,
}

/// The cycle decision: exit exactly on consumer disconnect, idle while
/// paused, otherwise decode one frame.
pub open spec fn spec_cycle_action(st: WorkerState, control_disconnected: bool) -> CycleAction {
    if control_disconnected {
        CycleAction::Exit
    } else if st.paused {
        CycleAction::Sleep
    } else {
        CycleAction::DecodeFrame
    }
}

/// Decides one cycle.  The worker exits if and only if the control inbox
/// reports its consumer permanently gone.
pub fn cycle_action(st: WorkerState, control_disconnected: bool) -> (a: CycleAction)
    ensures
        a == spec_cycle_action(st, control_disconnected),
        a is Exit <==> control_disconnected,
{
    if control_disconnected {
        CycleAction::Exit
    } else if st.paused {
        CycleAction::Sleep
    } else {
        CycleAction::DecodeFrame
    }
}

/// What one decode outcome obliges the worker to do.
#[derive(Debug)]
pub enum FrameStep {
    /// Push this frame to the consumer, then keep looping (unless the
    /// push finds the consumer gone).
    Deliver(DecodedFrame),
    /// End of stream: close the outbox with no trailing error and exit.
    CloseStream,
    /// Fatal mid-stream failure: push this error (best effort) and exit.
    Fail(VideoReaderError),
}

/// Classifies a decode outcome.  End-of-stream and a mid-stream failure
/// both end the worker; only a delivered frame can keep it running.
pub fn frame_step(outcome: Result<Option<DecodedFrame>, VideoReaderError>) -> (s: FrameStep)
    ensures
        match outcome {
            Ok(Some(f)) => s == FrameStep::Deliver(f),
            Ok(None) => s is CloseStream,
            Err(e) => s == FrameStep::Fail(e),
        },
{
    match outcome {
        Ok(Some(f)) => FrameStep::Deliver(f),
        Ok(None) => FrameStep::CloseStream,
        Err(e) => FrameStep::Fail(e),
    }
}

/// After acting on a `FrameStep`, the worker loops on exactly when it
/// delivered a frame and the consumer accepted it: a closed outbox ends
/// the loop as surely as end-of-stream or a failure does.
pub fn worker_continues(step: &FrameStep, delivered: bool) -> (c: bool)
    ensures
        c <==> (step is Deliver && delivered),
{
    match step {
        FrameStep::Deliver(_) => delivered,
        FrameStep::CloseStream => false,
        FrameStep::Fail(_) => false,
    }
}

/// The control state after a run of cycles, each draining one batch of
/// commands.
pub open spec fn state_after_cycles(
    st: WorkerState,
    cycles: Seq<Seq<ControlCommand>>,
) -> WorkerState
    decreases cycles.len(),
{
    if cycles.len() == 0 {
        st
    } else {
        state_after_cycles(
            spec_apply_commands(st, cycles[0]),
            cycles.subrange(1, cycles.len() as int),
        )
    }
}

/// A batch that ends with `Pause` leaves the worker paused, whatever came
/// before it in the batch.
pub proof fn lemma_batch_ending_in_pause(st: WorkerState, cs: Seq<ControlCommand>)
    requires
        cs.len() > 0,
        cs.last() is Pause,
    ensures
        spec_apply_commands(st, cs).paused,
    decreases cs.len(),
{
    let rest = cs.subrange(1, cs.len() as int);
    if cs.len() == 1 {
        assert(rest =~= Seq::<ControlCommand>::empty());
        assert(cs[0] == cs.last());
        assert(spec_apply_commands(spec_apply_command(st, cs[0]), Seq::<ControlCommand>::empty())
            == spec_apply_command(st, cs[0]));
    } else {
        assert(rest.last() == cs.last());
        lemma_batch_ending_in_pause(spec_apply_command(st, cs[0]), rest);
    }
}

/// A paused worker stays paused through any batch that contains no `Play`.
pub proof fn lemma_no_play_stays_paused(st: WorkerState, cs: Seq<ControlCommand>)
    requires
        st.paused,
        forall|i: int| 0 <= i < cs.len() ==> !((#[trigger] cs[i]) is Play),
    ensures
        spec_apply_commands(st, cs).paused,
    decreases cs.len(),
{
    if cs.len() > 0 {
        let rest = cs.subrange(1, cs.len() as int);
        assert forall|i: int| 0 <= i < rest.len() implies !((#[trigger] rest[i]) is Play) by {
            assert(rest[i] == cs[i + 1]);
        }
        lemma_no_play_stays_paused(spec_apply_command(st, cs[0]), rest);
    }
}

/// Repositioning requests leave the control state untouched, and the cycle
/// decision after them exits only on consumer disconnect.  Whether the
/// repositioning itself succeeds is no input here at all: a failed seek
/// can never terminate the worker.
pub proof fn lemma_seek_never_stops_worker(
    st: WorkerState,
    cs: Seq<ControlCommand>,
    control_disconnected: bool,
)
    requires
        forall|i: int| 0 <= i < cs.len() ==> ((#[trigger] cs[i]) is Seek),
    ensures
        spec_apply_commands(st, cs) == st,
        spec_cycle_action(spec_apply_commands(st, cs), control_disconnected) is Exit
            <==> control_disconnected,
    decreases cs.len(),
{
    if cs.len() > 0 {
        let rest = cs.subrange(1, cs.len() as int);
        assert forall|i: int| 0 <= i < rest.len() implies ((#[trigger] rest[i]) is Seek) by {
            assert(rest[i] == cs[i + 1]);
        }
        lemma_seek_never_stops_worker(spec_apply_command(st, cs[0]), rest, control_disconnected);
    }
}

/// Consumer disconnect - and nothing else - makes the cycle decision exit,
/// whatever control state the worker is in.
pub proof fn lemma_disconnect_stops_worker(st: WorkerState)
    ensures
        spec_cycle_action(st, true) is Exit,
        !(spec_cycle_action(st, false) is Exit),
{
}

/// A paused worker stays paused across any run of cycles none of whose
/// batches contains a `Play`.
pub proof fn lemma_cycles_without_play_stay_paused(
    st: WorkerState,
    cycles: Seq<Seq<ControlCommand>>,
)
    requires
        st.paused,
        forall|j: int, k: int|
            0 <= j < cycles.len() && 0 <= k < cycles[j].len() ==> !((#[trigger] cycles[j][k])
                is Play),
    ensures
        state_after_cycles(st, cycles).paused,
    decreases cycles.len(),
{
    if cycles.len() > 0 {
        assert forall|k: int| 0 <= k < cycles[0].len() implies !((#[trigger] cycles[0][k])
            is Play) by {}
        lemma_no_play_stays_paused(st, cycles[0]);
        let rest = cycles.subrange(1, cycles.len() as int);
        assert forall|j: int, k: int|
            0 <= j < rest.len() && 0 <= k < rest[j].len() implies !((#[trigger] rest[j][k])
            is Play) by {
            assert(rest[j] == cycles[j + 1]);
        }
        lemma_cycles_without_play_stay_paused(spec_apply_commands(st, cycles[0]), rest);
    }
}

/// Once a cycle's batch ends with `Pause` and no later batch asks to play
/// again, every decision from that cycle on is `Sleep` or `Exit`: the
/// worker is paused at each decision point, so no new frame is produced
/// past that cycle boundary.
pub proof fn lemma_pause_then_no_frames(
    st: WorkerState,
    cycles: Seq<Seq<ControlCommand>>,
    i: int,
    control_disconnected: bool,
)
    requires
        cycles.len() > 0,
        cycles[0].len() > 0,
        cycles[0].last() is Pause,
        forall|j: int, k: int|
            1 <= j < cycles.len() && 0 <= k < cycles[j].len() ==> !((#[trigger] cycles[j][k])
                is Play),
        0 <= i < cycles.len(),
    ensures
        spec_apply_commands(state_after_cycles(st, cycles.take(i)), cycles[i]).paused,
        !(spec_cycle_action(
            spec_apply_commands(state_after_cycles(st, cycles.take(i)), cycles[i]),
            control_disconnected,
        ) is DecodeFrame),
{
    if i == 0 {
        assert(cycles.take(0) =~= Seq::<Seq<ControlCommand>>::empty());
        lemma_batch_ending_in_pause(st, cycles[0]);
    } else {
        let st1 = spec_apply_commands(st, cycles[0]);
        lemma_batch_ending_in_pause(st, cycles[0]);
        let middle = cycles.subrange(1, i);
        assert(cycles.take(i).subrange(1, i) =~= middle);
        assert(cycles.take(i)[0] == cycles[0]);
        assert(state_after_cycles(st, cycles.take(i)) == state_after_cycles(st1, middle));
        assert forall|j: int, k: int|
            0 <= j < middle.len() && 0 <= k < middle[j].len() implies !((#[trigger] middle[j][k])
            is Play) by {
            assert(middle[j] == cycles[j + 1]);
        }
        lemma_cycles_without_play_stay_paused(st1, middle);
        assert forall|k: int| 0 <= k < cycles[i].len() implies !((#[trigger] cycles[i][k])
            is Play) by {}
        lemma_no_play_stays_paused(state_after_cycles(st1, middle), cycles[i]);
    }
}

/// A whole worker run, modelled at the specification level: the control
/// state, the frames the decoder has yet to produce, the frames delivered
/// so far, and whether the loop has exited.  The model covers a source
/// that decodes cleanly to its end; a mid-stream decode failure ends the
/// run exactly as `frame_step` and `worker_continues` state.
pub struct WorkerRun {
    /// The control state carried between cycles.
    pub control: WorkerState,
    /// The frames the decoder will still produce, in decode order.
    pub remaining: Seq<DecodedFrame>,
    /// The frames pushed to and accepted by the consumer, oldest first.
    pub delivered: Seq<DecodedFrame>,
    /// True once the loop has exited.
    pub stopped: bool,
}

/// What the environment hands the worker in one cycle: the drained batch
/// of commands, whether the control inbox reports its consumer gone, and
/// whether the consumer accepted a pushed frame.
pub struct CycleEnv {
    /// The commands pending in the inbox this cycle, in arrival order.
    pub commands: Seq<ControlCommand>,
    /// True when the control inbox reports a permanent disconnect.
    pub control_disconnected: bool,
    /// True when the frame outbox accepted the pushed frame.
    pub send_ok: bool,
}

/// One cycle of a worker run: drain the batch, then act on the cycle
/// decision.  Decoding past the last frame closes the stream; a rejected
/// push ends the loop with the frame not delivered.
pub open spec fn spec_run_cycle(run: WorkerRun, env: CycleEnv) -> WorkerRun {
    if run.stopped {
        run
    } else {
        let st = spec_apply_commands(run.control, env.commands);
        match spec_cycle_action(st, env.control_disconnected) {
            CycleAction::Exit => WorkerRun { control: st, stopped: true, ..run },
            CycleAction::Sleep => WorkerRun { control: st, ..run },
            CycleAction::DecodeFrame => {
                if run.remaining.len() == 0 {
                    WorkerRun { control: st, stopped: true, ..run }
                } else if env.send_ok {
                    WorkerRun {
                        control: st,
                        remaining: run.remaining.subrange(1, run.remaining.len() as int),
                        delivered: run.delivered.push(run.remaining[0]),
                        stopped: false,
                    }
                } else {
                    WorkerRun { control: st, stopped: true, ..run }
                }
            },
        }
    }
}

/// A worker run over a whole sequence of cycles.
pub open spec fn spec_run_cycles(run: WorkerRun, envs: Seq<CycleEnv>) -> WorkerRun
    decreases envs.len(),
{
    if envs.len() == 0 {
        run
    } else {
        spec_run_cycles(spec_run_cycle(run, envs[0]), envs.subrange(1, envs.len() as int))
    }
}

/// A stopped worker stays stopped: no later cycle changes anything.
pub proof fn lemma_stopped_stays_stopped(run: WorkerRun, envs: Seq<CycleEnv>)
    requires
        run.stopped,
    ensures
        spec_run_cycles(run, envs) == run,
    decreases envs.len(),
{
    if envs.len() > 0 {
        lemma_stopped_stays_stopped(run, envs.subrange(1, envs.len() as int));
    }
}

/// The playout law: a running worker that is not paused, stays connected,
/// has every pushed frame accepted, and receives no further commands
/// delivers its whole remaining stream, one frame per cycle in decode
/// order, and then stops - the normal end of stream.
pub proof fn lemma_playout_delivers_everything(run: WorkerRun, envs: Seq<CycleEnv>)
    requires
        !run.stopped,
        !run.control.paused,
        forall|i: int|
            0 <= i < envs.len() ==> (#[trigger] envs[i]).commands.len() == 0
                && !envs[i].control_disconnected && envs[i].send_ok,
        envs.len() > run.remaining.len(),
    ensures
        spec_run_cycles(run, envs).stopped,
        spec_run_cycles(run, envs).delivered == run.delivered + run.remaining,
    decreases envs.len(),
{
    let env0 = envs[0];
    let rest = envs.subrange(1, envs.len() as int);
    assert(spec_apply_commands(run.control, env0.commands) == run.control);
    let next = spec_run_cycle(run, env0);
    assert forall|i: int|
        0 <= i < rest.len() implies (#[trigger] rest[i]).commands.len() == 0
            && !rest[i].control_disconnected && rest[i].send_ok by {
        assert(rest[i] == envs[i + 1]);
    }
    if run.remaining.len() == 0 {
        assert(next.stopped);
        lemma_stopped_stays_stopped(next, rest);
        assert(next.delivered =~= run.delivered + run.remaining);
    } else {
        lemma_playout_delivers_everything(next, rest);
        assert(next.delivered + next.remaining =~= run.delivered + run.remaining);
    }
}

proof fn lemma_ordered_concat_restricts(
    delivered: Seq<DecodedFrame>,
    remaining: Seq<DecodedFrame>,
)
    requires
        crate::frame::timestamps_nondecreasing(delivered + remaining),
    ensures
        crate::frame::timestamps_nondecreasing(delivered),
{
    let whole = delivered + remaining;
    assert forall|i: int, j: int|
        0 <= i <= j < delivered.len() implies delivered[i].timestamp_ms
            <= delivered[j].timestamp_ms by {
        assert(whole[i] == delivered[i]);
        assert(whole[j] == delivered[j]);
        assert(whole[i].timestamp_ms <= whole[j].timestamp_ms);
    }
}

/// The run-level ordering law: when the frames already delivered followed
/// by the frames still to come carry non-decreasing timestamps, then after
/// any cycles whatsoever the delivered sequence still carries
/// non-decreasing timestamps.  (The decoder of this model produces its
/// frames strictly in order; repositioning is outside it.)
pub proof fn lemma_run_timestamps_nondecreasing(run: WorkerRun, envs: Seq<CycleEnv>)
    requires
        crate::frame::timestamps_nondecreasing(run.delivered + run.remaining),
    ensures
        crate::frame::timestamps_nondecreasing(spec_run_cycles(run, envs).delivered),
    decreases envs.len(),
{
    if envs.len() == 0 {
        lemma_ordered_concat_restricts(run.delivered, run.remaining);
    } else {
        let env0 = envs[0];
        let rest = envs.subrange(1, envs.len() as int);
        let next = spec_run_cycle(run, env0);
        if next.stopped {
            lemma_stopped_stays_stopped(next, rest);
            assert(next.delivered == run.delivered);
            lemma_ordered_concat_restricts(run.delivered, run.remaining);
        } else {
            assert(next.delivered + next.remaining =~= run.delivered + run.remaining);
            lemma_run_timestamps_nondecreasing(next, rest);
        }
    }
}

/// The run-level pause law: a paused worker given no `Play` delivers no
/// further frame, however many cycles pass and whatever repositioning or
/// `Pause` commands arrive meanwhile.
pub proof fn lemma_paused_run_delivers_nothing(run: WorkerRun, envs: Seq<CycleEnv>)
    requires
        run.control.paused,
        forall|i: int, k: int|
            0 <= i < envs.len() && 0 <= k < envs[i].commands.len() ==> !((
            #[trigger] envs[i].commands[k]) is Play),
    ensures
        spec_run_cycles(run, envs).delivered == run.delivered,
        spec_run_cycles(run, envs).remaining == run.remaining,
    decreases envs.len(),
{
    if envs.len() > 0 {
        let env0 = envs[0];
        let rest = envs.subrange(1, envs.len() as int);
        let next = spec_run_cycle(run, env0);
        if !run.stopped {
            assert forall|k: int| 0 <= k < env0.commands.len() implies !((
                #[trigger] env0.commands[k]) is Play) by {}
            lemma_no_play_stays_paused(run.control, env0.commands);
        }
        assert(next.delivered == run.delivered);
        assert(next.remaining == run.remaining);
        assert(next.control.paused);
        assert forall|i: int, k: int|
            0 <= i < rest.len() && 0 <= k < rest[i].commands.len() implies !((
            #[trigger] rest[i].commands[k]) is Play) by {
            assert(rest[i] == envs[i + 1]);
        }
        lemma_paused_run_delivers_nothing(next, rest);
    }
}

/// Everything the synchronous part of starting a stream decides: the
/// metadata, the pacing interval, and the initial control state.
#[derive(Debug)]
pub struct StreamSetup {
    /// Properties of the opened stream.
    pub metadata: StreamMetadata,
    /// Milliseconds the worker sleeps after every cycle.
    pub interval_ms: u64,
    /// The control state the worker starts in: always paused.
    pub initial_state: WorkerState,
}

/// The synchronous half of starting a stream.  The backend's own report
/// (`opened`) accepts or rejects the source: a missing, empty or non-video
/// source reports itself not opened and is rejected here, before any
/// background work begins.  On success the worker starts paused - opening
/// a file never starts decoding by itself.  `failure_detail` is the cause
/// string carried by the rejection.
pub fn begin_stream(
    opened: bool,
    width: u32,
    height: u32,
    reported_rate_milli: u64,
    reported_frame_count: u64,
    failure_detail: String,
) -> (r: Result<StreamSetup, VideoReaderError>)
    ensures
        r is Ok <==> opened,
        r matches Ok(s) ==> s.metadata.width == width && s.metadata.height == height,
        r matches Ok(s) ==> s.metadata.frame_rate_milli == effective_rate_milli(
            reported_rate_milli,
        ),
        r matches Ok(s) ==> s.metadata.duration_ms == duration_ms_of(
            reported_frame_count,
            effective_rate_milli(reported_rate_milli),
        ),
        r matches Ok(s) ==> s.interval_ms == interval_ms_of(
            effective_rate_milli(reported_rate_milli),
        ),
        r matches Ok(s) ==> s.initial_state.paused,
        !opened ==> r == Err::<StreamSetup, VideoReaderError>(VideoReaderError::OpenCV(failure_detail)),
{
    if !opened {
        return Err(VideoReaderError::OpenCV(failure_detail));
    }
    let metadata = StreamMetadata::from_reported(
        width,
        height,
        reported_rate_milli,
        reported_frame_count,
    );
    let interval_ms = metadata.frame_interval_ms();
    Ok(StreamSetup { metadata, interval_ms, initial_state: WorkerState { paused: true } })
}

} // verus!
