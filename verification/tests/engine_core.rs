//! Tests for the engine's bookkeeping: what each command and tick does.

use quran_tui::audio::engine::{CoreCommand, EngineCore, EngineState, EngineStep, SinkOp};

fn loaded(count: usize, autoplay: bool, looping: bool) -> EngineCore {
    let mut core = EngineCore::new();
    core.command(CoreCommand::Load { count, loop_enabled: looping, autoplay }, 0);
    core
}

#[test]
fn load_plays_and_reports_the_first_track() {
    let mut core = EngineCore::new();
    let (steps, shutdown) = core.command(CoreCommand::Load { count: 3, loop_enabled: false, autoplay: true }, 0);
    assert!(!shutdown);
    assert_eq!(steps, vec![
        EngineStep::State(EngineState::Loading),
        EngineStep::Sink(SinkOp::Reset),
        EngineStep::Sink(SinkOp::FillWindow),
        EngineStep::Sink(SinkOp::Play),
        EngineStep::State(EngineState::Playing),
        EngineStep::Track { index: 0, total: 3 },
    ]);
    assert!(core.playing);
}

#[test]
fn loading_nothing_goes_idle() {
    let mut core = loaded(2, false, false);
    let (steps, _) = core.command(CoreCommand::Load { count: 0, loop_enabled: false, autoplay: true }, 0);
    assert_eq!(steps, vec![
        EngineStep::State(EngineState::Loading),
        EngineStep::Sink(SinkOp::Reset),
        EngineStep::Sink(SinkOp::FillWindow),
        EngineStep::State(EngineState::Idle),
    ]);
}

#[test]
fn window_fills_three_tracks_at_a_time() {
    let mut core = loaded(5, true, false);
    let mut sink = 0;
    while let Some(i) = core.next_to_append(sink) {
        assert_eq!(i, core.appended);
        core.mark_appended();
        sink += 1;
    }
    assert_eq!((core.appended, sink), (3, 3));
}

#[test]
fn next_past_the_end_finishes_or_wraps() {
    let mut core = loaded(2, true, false);
    core.appended = 2;
    let (steps, _) = core.command(CoreCommand::Next, 0);
    assert_eq!(steps[0], EngineStep::Finished);
    assert_eq!(core.track_count, 0);
    let mut core = loaded(2, true, true);
    core.appended = 2;
    let (steps, _) = core.command(CoreCommand::Next, 0);
    assert_eq!(steps[..3], [
        EngineStep::Sink(SinkOp::Reset),
        EngineStep::Sink(SinkOp::FillWindow),
        EngineStep::Sink(SinkOp::Play),
    ]);
    assert_eq!(core.appended, 0);
}

#[test]
fn skipping_keeps_pause() {
    let mut core = loaded(4, false, false);
    core.appended = 3;
    let (steps, _) = core.command(CoreCommand::Prev, 2);
    assert_eq!(steps, vec![
        EngineStep::Sink(SinkOp::Reset),
        EngineStep::Sink(SinkOp::FillWindow),
        EngineStep::Sink(SinkOp::Pause),
    ]);
    assert_eq!(core.appended, 0);
}

#[test]
fn ticks_report_or_end() {
    let mut core = loaded(3, true, false);
    core.appended = 3;
    assert_eq!(core.tick(2), vec![EngineStep::Track { index: 1, total: 3 }, EngineStep::Progress(1)]);
    assert_eq!(core.tick(2), vec![EngineStep::Progress(1)]);
    let steps = core.tick(0);
    assert_eq!(steps[0], EngineStep::Finished);
    assert_eq!(core.tick(0), vec![]);
}

#[test]
fn stop_pause_play_and_shutdown() {
    let mut core = loaded(3, true, false);
    let (steps, _) = core.command(CoreCommand::Pause, 0);
    assert_eq!(steps, vec![EngineStep::Sink(SinkOp::Pause), EngineStep::State(EngineState::Paused)]);
    let (steps, _) = core.command(CoreCommand::Stop, 0);
    assert_eq!(steps, vec![
        EngineStep::Sink(SinkOp::Reset),
        EngineStep::Sink(SinkOp::ClearTracks),
        EngineStep::State(EngineState::Idle),
    ]);
    let (steps, _) = core.command(CoreCommand::Play, 0);
    assert!(steps.is_empty());
    let (steps, shutdown) = core.command(CoreCommand::Shutdown, 0);
    assert!(shutdown);
    assert_eq!(steps, vec![EngineStep::Sink(SinkOp::Stop)]);
}

#[test]
fn truncate_keeps_only_the_tracks_that_exist() {
    let mut core = loaded(5, false, false);
    core.mark_appended();
    core.mark_appended();
    core.mark_appended();
    core.truncate(2);
    assert_eq!(core.track_count, 2);
    assert_eq!(core.appended, 2);
    // A larger bound changes nothing.
    core.truncate(9);
    assert_eq!(core.track_count, 2);
    assert_eq!(core.appended, 2);
}
