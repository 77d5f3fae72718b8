//! The transport buttons' decisions: what Play/Pause and Previous do in
//! the current situation.

use crate::playback::{PlaybackMode, PlaybackState};
use vstd::prelude::*;

verus! {

/// Previous restarts the current track instead of going back once it has
/// played longer than this (ms).
pub const PREVIOUS_RESTART_THRESHOLD_MS: u64 = 4_000;

/// What Play/Pause does.
#[derive(Debug, Clone, Copy, PartialEq, Eq, Structural)]
pub enum ToggleAction {
    /// Nothing to play.
    Nothing,
    /// Start the library from this index.
    PlayIndex(usize),
    /// Pause the running track.
    Pause,
    /// Resume the loaded track.
    Resume,
}

/// The Play/Pause decision: with no current track, start the first track
/// if there is one; a current track that is not the loaded one is started;
/// otherwise playing pauses and anything else resumes.
pub open spec fn toggle_spec(current: Option<usize>, track_count: usize, current_is_loaded: bool, state: PlaybackState) -> ToggleAction {
    match current {
        None => if track_count > 0 {
            ToggleAction::PlayIndex(0)
        } else {
            ToggleAction::Nothing
        },
        Some(i) => if i < track_count && !current_is_loaded {
            ToggleAction::PlayIndex(i)
        } else if state == PlaybackState::Playing {
            ToggleAction::Pause
        } else {
            ToggleAction::Resume
        },
    }
}

/// `current_is_loaded` tells whether the current track's URI is the one
/// the audio output has loaded.
pub fn toggle_playback_action(current: Option<usize>, track_count: usize, current_is_loaded: bool, state: PlaybackState) -> (action: ToggleAction)
    ensures
        action == toggle_spec(current, track_count, current_is_loaded, state),
{
    match current {
        None => if track_count > 0 {
            ToggleAction::PlayIndex(0)
        } else {
            ToggleAction::Nothing
        },
        Some(i) => if i < track_count && !current_is_loaded {
            ToggleAction::PlayIndex(i)
        } else if state.is_playing() {
            ToggleAction::Pause
        } else {
            ToggleAction::Resume
        },
    }
}

/// Previous restarts the track once more than four seconds have played;
/// before that it goes back in the queue.
pub fn previous_restarts(position_ms: u64) -> (restart: bool)
    ensures
        restart == (position_ms > PREVIOUS_RESTART_THRESHOLD_MS),
{
    position_ms > PREVIOUS_RESTART_THRESHOLD_MS
}


/// Pressing a mode button: pressing the active mode returns to
/// sequential play, any other press selects that mode.
pub fn toggled_mode(current: PlaybackMode, pressed: PlaybackMode) -> (mode: PlaybackMode)
    ensures
        mode == (if current == pressed {
            PlaybackMode::Sequential
        } else {
            pressed
        }),
{
    if current == pressed {
        PlaybackMode::Sequential
    } else {
        pressed
    }
}

/// What changing the playback mode requires: nothing when it stays the
/// same; otherwise the change is saved and announced, and entering shuffle
/// starts a fresh shuffle cycle (`Some(restart)`).
pub fn mode_change(current: PlaybackMode, requested: PlaybackMode) -> (change: Option<bool>)
    ensures
        current == requested ==> change is None,
        current != requested ==> change == Some(requested == PlaybackMode::Shuffle),
{
    if current == requested {
        None
    } else {
        Some(requested == PlaybackMode::Shuffle)
    }
}

} // verus!
