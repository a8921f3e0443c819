//! Tests for the playback engine's decisions and the media-key state.

use quran_tui::audio::engine::{
    current_index, next_target, plan_skip, plan_tick, prev_target, EngineState, SkipPlan, TickPlan,
};
use quran_tui::media_keys::{now_playing_state, NowPlayingState};

#[test]
fn current_index_counts_tracks_already_played() {
    assert_eq!(current_index(5, 2), 3);
    assert_eq!(current_index(2, 5), 0);
    assert_eq!(current_index(0, 0), 0);
}

#[test]
fn next_and_prev_saturate() {
    assert_eq!(next_target(3), 4);
    assert_eq!(next_target(usize::MAX), usize::MAX);
    assert_eq!(prev_target(3), 2);
    assert_eq!(prev_target(0), 0);
}

#[test]
fn skip_plans() {
    assert_eq!(plan_skip(0, 0, true), SkipPlan::Nothing);
    assert_eq!(plan_skip(3, 1, false), SkipPlan::JumpTo(1));
    assert_eq!(plan_skip(3, 3, true), SkipPlan::RestartFromZero);
    assert_eq!(plan_skip(3, 7, false), SkipPlan::Finish);
}

#[test]
fn tick_plans() {
    assert_eq!(plan_tick(0, 0, 0, true, true), TickPlan::Nothing);
    assert_eq!(plan_tick(3, 3, 0, false, false), TickPlan::Wait);
    assert_eq!(plan_tick(3, 3, 0, true, true), TickPlan::RestartFromZero);
    assert_eq!(plan_tick(3, 3, 0, true, false), TickPlan::Finish);
    assert_eq!(plan_tick(5, 3, 2, true, false), TickPlan::Report(1));
    assert_eq!(plan_tick(2, 9, 1, true, false), TickPlan::Report(1));
}

#[test]
fn media_key_state_follows_the_engine() {
    assert_eq!(now_playing_state(&EngineState::Playing), NowPlayingState::Playing);
    assert_eq!(now_playing_state(&EngineState::Paused), NowPlayingState::Paused);
    assert_eq!(now_playing_state(&EngineState::Idle), NowPlayingState::Stopped);
    assert_eq!(now_playing_state(&EngineState::Error("x".into())), NowPlayingState::Stopped);
}
