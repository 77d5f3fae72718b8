use vstd::prelude::*;

verus! {

/// Whether the audio output is idle, loading, paused, or running.
#[derive(Debug, Clone, Copy, PartialEq, Eq, Structural)]
pub enum PlaybackState {
    Stopped,
    Buffering,
    Paused,
    Playing,
}

impl PlaybackState {
    pub fn is_playing(self) -> (playing: bool)
        ensures
            playing <==> self == PlaybackState::Playing,
    {
        match self {
            PlaybackState::Playing => true,
            _ => false,
        }
    }
}

/// How the queue advances when a track ends or the listener skips.
#[derive(Debug, Clone, Copy, PartialEq, Eq, Structural)]
pub enum PlaybackMode {
    Sequential,
    RepeatOne,
    Shuffle,
}

/// The mode that follows `mode` when the listener cycles through modes.
pub open spec fn next_mode(mode: PlaybackMode) -> PlaybackMode {
    match mode {
        PlaybackMode::Sequential => PlaybackMode::RepeatOne,
        PlaybackMode::RepeatOne => PlaybackMode::Shuffle,
        PlaybackMode::Shuffle => PlaybackMode::Sequential,
    }
}

impl PlaybackMode {
    pub fn next(self) -> (mode: PlaybackMode)
        ensures
            mode == next_mode(self),
    {
        match self {
            PlaybackMode::Sequential => PlaybackMode::RepeatOne,
            PlaybackMode::RepeatOne => PlaybackMode::Shuffle,
            PlaybackMode::Shuffle => PlaybackMode::Sequential,
        }
    }
}

} // verus!
