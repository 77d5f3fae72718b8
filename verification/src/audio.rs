//! The decisions of the audio worker: what it reports and which playback
//! state it requests, given what the output pipeline did. The worker loop
//! around it performs the pipeline calls and hands the outcomes back.

use crate::playback::PlaybackState;
use vstd::prelude::*;

verus! {

/// Positions are reported on every sixth poll of the worker loop.
pub const POSITION_POLL_INTERVAL: u8 = 6;

/// A track counts as ended this close (ms) to its duration, in case the
/// pipeline never posts its end-of-stream message.
pub const END_OF_STREAM_SLACK_MS: u64 = 20;

/// What the worker remembers between events.
#[derive(Debug, Clone, Copy, PartialEq, Eq, Structural)]
pub struct WorkerState {
    /// A track is open in the pipeline.
    pub has_playback: bool,
    /// The state the listener last asked for.
    pub requested: PlaybackState,
    /// The end of the current track was already reported.
    pub eos_reported: bool,
    /// Poll counter (wrapping).
    pub tick: u8,
}

/// What the worker reports to the application.
#[derive(Debug, Clone, Copy, PartialEq, Eq, Structural)]
pub enum WorkerReport {
    State(PlaybackState),
    EndOfStream,
    Error,
}

/// The outcome of one step of the pipeline, handed back to the worker.
#[derive(Debug, Clone, Copy, PartialEq, Eq, Structural)]
pub enum PipelineOutcome {
    /// Opening a newly loaded track succeeded or failed.
    Opened { ok: bool },
    /// A request to play (`playing`) or pause succeeded or failed; only
    /// made while a track is open.
    Switched { playing: bool, ok: bool },
    /// A seek was attempted (its failure is reported separately).
    Sought { ok: bool },
    /// The pipeline posted its end-of-stream message.
    EndOfStreamMessage,
    /// The pipeline posted an error.
    PipelineError,
}

impl WorkerState {
    /// The state before the first command.
    pub fn initial() -> (state: WorkerState)
        ensures
            !state.has_playback,
            state.requested == PlaybackState::Stopped,
            !state.eos_reported,
            state.tick == 0,
    {
        WorkerState { has_playback: false, requested: PlaybackState::Stopped, eos_reported: false, tick: 0 }
    }
}

/// The report that loading starts with: buffering.
pub fn load_started() -> (report: WorkerReport)
    ensures
        report == WorkerReport::State(PlaybackState::Buffering),
{
    WorkerReport::State(PlaybackState::Buffering)
}

/// The next state and the report after a pipeline outcome.
pub open spec fn after_outcome(state: WorkerState, outcome: PipelineOutcome) -> (WorkerState, Option<WorkerReport>) {
    match outcome {
        PipelineOutcome::Opened { ok } => if ok {
            (
                WorkerState { has_playback: true, requested: PlaybackState::Playing, eos_reported: false, ..state },
                Some(WorkerReport::State(PlaybackState::Playing)),
            )
        } else {
            (
                WorkerState { has_playback: false, requested: PlaybackState::Stopped, ..state },
                Some(WorkerReport::Error),
            )
        },
        PipelineOutcome::Switched { playing, ok } => if !state.has_playback {
            (state, None)
        } else if !ok {
            (state, Some(WorkerReport::Error))
        } else {
            let target = if playing {
                PlaybackState::Playing
            } else {
                PlaybackState::Paused
            };
            (WorkerState { requested: target, ..state }, Some(WorkerReport::State(target)))
        },
        PipelineOutcome::Sought { ok } => (
            WorkerState { eos_reported: false, ..state },
            if state.has_playback && !ok {
                Some(WorkerReport::Error)
            } else {
                None
            },
        ),
        PipelineOutcome::EndOfStreamMessage => if !state.has_playback || state.eos_reported {
            (state, None)
        } else {
            (
                WorkerState { eos_reported: true, requested: PlaybackState::Stopped, ..state },
                Some(WorkerReport::EndOfStream),
            )
        },
        PipelineOutcome::PipelineError => if !state.has_playback {
            (state, None)
        } else {
            (WorkerState { requested: PlaybackState::Stopped, ..state }, Some(WorkerReport::Error))
        },
    }
}

/// Applies a pipeline outcome.
pub fn on_outcome(state: WorkerState, outcome: PipelineOutcome) -> (r: (WorkerState, Option<WorkerReport>))
    ensures
        r == after_outcome(state, outcome),
{
    match outcome {
        PipelineOutcome::Opened { ok } => if ok {
            (
                WorkerState { has_playback: true, requested: PlaybackState::Playing, eos_reported: false, ..state },
                Some(WorkerReport::State(PlaybackState::Playing)),
            )
        } else {
            (
                WorkerState { has_playback: false, requested: PlaybackState::Stopped, ..state },
                Some(WorkerReport::Error),
            )
        },
        PipelineOutcome::Switched { playing, ok } => if !state.has_playback {
            (state, None)
        } else if !ok {
            (state, Some(WorkerReport::Error))
        } else {
            let target = if playing {
                PlaybackState::Playing
            } else {
                PlaybackState::Paused
            };
            (WorkerState { requested: target, ..state }, Some(WorkerReport::State(target)))
        },
        PipelineOutcome::Sought { ok } => (
            WorkerState { eos_reported: false, ..state },
            if state.has_playback && !ok {
                Some(WorkerReport::Error)
            } else {
                None
            },
        ),
        PipelineOutcome::EndOfStreamMessage => if !state.has_playback || state.eos_reported {
            (state, None)
        } else {
            (
                WorkerState { eos_reported: true, requested: PlaybackState::Stopped, ..state },
                Some(WorkerReport::EndOfStream),
            )
        },
        PipelineOutcome::PipelineError => if !state.has_playback {
            (state, None)
        } else {
            (WorkerState { requested: PlaybackState::Stopped, ..state }, Some(WorkerReport::Error))
        },
    }
}

/// The state with its poll counter advanced (wrapping).
pub open spec fn ticked(state: WorkerState) -> WorkerState {
    WorkerState { tick: (if state.tick == 255 { 0 } else { state.tick + 1 }) as u8, ..state }
}

/// One poll of the loop with a track open: the counter advances
/// (wrapping), and every sixth poll asks for the position.
pub fn poll(state: WorkerState) -> (r: (WorkerState, bool))
    ensures
        r.0 == ticked(state),
        r.1 == (r.0.tick % POSITION_POLL_INTERVAL == 0),
{
    let tick = if state.tick == 255 {
        0
    } else {
        state.tick + 1
    };
    (WorkerState { tick, ..state }, tick % POSITION_POLL_INTERVAL == 0)
}

/// The track has played to its end by position alone: playing was
/// requested, the end is not yet reported, the duration is known, and the
/// position is within 20 ms of it.
pub open spec fn ended_by_position(state: WorkerState, position_ms: u64, duration_ms: u64) -> bool {
    &&& !state.eos_reported
    &&& state.requested == PlaybackState::Playing
    &&& duration_ms > 0
    &&& position_ms >= (if duration_ms >= END_OF_STREAM_SLACK_MS {
        duration_ms - END_OF_STREAM_SLACK_MS
    } else {
        0
    })
}

/// After a position report: whether the end of the track is reported now.
pub fn after_position(state: WorkerState, position_ms: u64, duration_ms: u64) -> (r: (WorkerState, bool))
    ensures
        r.1 == ended_by_position(state, position_ms, duration_ms),
        r.1 ==> r.0 == (WorkerState { eos_reported: true, ..state }),
        !r.1 ==> r.0 == state,
{
    let threshold = if duration_ms >= END_OF_STREAM_SLACK_MS {
        duration_ms - END_OF_STREAM_SLACK_MS
    } else {
        0
    };
    let ended = !state.eos_reported && state.requested == PlaybackState::Playing && duration_ms > 0
        && position_ms >= threshold;
    if ended {
        (WorkerState { eos_reported: true, ..state }, true)
    } else {
        (state, false)
    }
}

/// The end of a track is reported at most once: once reported, neither the
/// pipeline's end-of-stream message nor the position check reports it
/// again until a new track is opened or the listener seeks.
pub proof fn end_of_stream_is_reported_once(state: WorkerState, position_ms: u64, duration_ms: u64)
    requires
        state.eos_reported,
    ensures
        after_outcome(state, PipelineOutcome::EndOfStreamMessage).1 is None,
        !ended_by_position(state, position_ms, duration_ms),
        !after_outcome(state, PipelineOutcome::Sought { ok: true }).0.eos_reported,
        !after_outcome(state, PipelineOutcome::Opened { ok: true }).0.eos_reported,
{
}

/// Reporting the end of a track stops requesting playback, so the
/// position check cannot report it a second time either.
pub proof fn end_of_stream_message_stops_playback(state: WorkerState, position_ms: u64, duration_ms: u64)
    requires
        after_outcome(state, PipelineOutcome::EndOfStreamMessage).1 == Some(WorkerReport::EndOfStream),
    ensures
        after_outcome(state, PipelineOutcome::EndOfStreamMessage).0.requested == PlaybackState::Stopped,
        !ended_by_position(after_outcome(state, PipelineOutcome::EndOfStreamMessage).0, position_ms, duration_ms),
{
}

} // verus!
