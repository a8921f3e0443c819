//! What the OS Now Playing widget is told: title, artist, position and
//! playback state. The platform bridge that publishes it lives at the
//! application edge.

use std::time::Duration;

use vstd::prelude::*;

use crate::audio::engine::EngineState;

verus! {

/// Playback state, mapped from `EngineState`. Stopped also covers "idle".
#[derive(Clone, Copy, Debug, Default, PartialEq, Eq)]
pub enum NowPlayingState {
    #[default]
    Stopped,
    Paused,
    Playing,
}

/// What we publish to the OS each tick: title, artist, position, and whether
/// audio is playing/paused/stopped. Built from the focused output.
#[derive(Clone, Debug, Default)]
pub struct NowPlayingSnapshot {
    pub title: String,
    pub artist: String,
    pub album: String,
    pub duration: Option<Duration>,
    pub elapsed: Duration,
    pub state: NowPlayingState,
}

/// The OS-facing state for an engine state: playing and paused carry over,
/// everything else (idle, loading, error) is stopped.
pub fn now_playing_state(state: &EngineState) -> (r: NowPlayingState)
    ensures
        r == match *state {
            EngineState::Playing => NowPlayingState::Playing,
            EngineState::Paused => NowPlayingState::Paused,
            _ => NowPlayingState::Stopped,
        },
{
    match state {
        EngineState::Playing => NowPlayingState::Playing,
        EngineState::Paused => NowPlayingState::Paused,
        _ => NowPlayingState::Stopped,
    }
}

} // verus!
