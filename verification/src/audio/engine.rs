//! The playback engine's vocabulary and decisions. One engine per output owns
//! an audio sink that holds a rolling window of decoded tracks; the decisions
//! below say which track is current, where a skip lands, and what each
//! housekeeping tick does, from the engine's counters and the sink's length.

use std::time::Duration;

use vstd::prelude::*;

verus! {

/// `Duration` is `Copy`: cloning it gives the same value.
pub assume_specification[ <Duration as Clone>::clone ](d: &Duration) -> (r: Duration)
    ensures
        r == *d,
;

/// Lifecycle state of one engine.
#[derive(Debug, PartialEq, Eq)]
pub enum EngineState {
    Idle,
    Loading,
    Playing,
    Paused,
    Error(String),
}

impl Clone for EngineState {
    fn clone(&self) -> (r: Self)
        ensures
            r == *self,
    {
        match self {
            EngineState::Idle => EngineState::Idle,
            EngineState::Loading => EngineState::Loading,
            EngineState::Playing => EngineState::Playing,
            EngineState::Paused => EngineState::Paused,
            EngineState::Error(e) => EngineState::Error(e.clone()),
        }
    }
}

/// Two engine states read the same (error messages compared by their text).
pub open spec fn state_eq(a: EngineState, b: EngineState) -> bool {
    match (a, b) {
        (EngineState::Error(x), EngineState::Error(y)) => x@ == y@,
        _ => a == b,
    }
}

/// Events emitted by an engine thread.
#[derive(Debug, Clone)]
pub enum EngineEvent {
    StateChanged(EngineState),
    TrackChanged { index: usize, total: usize },
    Progress { elapsed: Duration, track_len: Option<Duration> },
    Finished,
}

/// Where a skip request lands.
#[derive(Debug, Clone, Copy, PartialEq, Eq)]
pub enum SkipPlan {
    /// No playlist is loaded: nothing to do.
    Nothing,
    /// Past the end with looping on: wrap back to the first track and play.
    RestartFromZero,
    /// Past the end with looping off: end the playlist.
    Finish,
    /// Rebuild the window starting at this track.
    JumpTo(usize),
}

/// What one housekeeping tick does once the window has been topped up.
#[derive(Debug, Clone, Copy, PartialEq, Eq)]
pub enum TickPlan {
    /// No playlist is loaded.
    Nothing,
    /// The sink is drained while paused: wait.
    Wait,
    /// The sink drained while playing, looping on: start over.
    RestartFromZero,
    /// The sink drained while playing, looping off: end the playlist.
    Finish,
    /// Report this track as current, with the sink's position.
    Report(usize),
}

/// The track at the head of the sink: tracks appended so far minus those
/// still queued (never below zero).
pub fn current_index(appended: usize, queued: usize) -> (r: usize)
    ensures
        r == (if appended >= queued { appended - queued } else { 0 }),
{
    if appended >= queued {
        appended - queued
    } else {
        0
    }
}

/// The track a `Next` command aims at.
pub fn next_target(current: usize) -> (r: usize)
    ensures
        r == (if current < usize::MAX { current + 1 } else { usize::MAX as int }),
{
    current.saturating_add(1)
}

/// The track a `Prev` command aims at.
pub fn prev_target(current: usize) -> (r: usize)
    ensures
        r == (if current > 0 { current - 1 } else { 0 }),
{
    current.saturating_sub(1)
}

/// Where a skip to track `index` of a `track_count`-track playlist lands.
pub fn plan_skip(track_count: usize, index: usize, loop_enabled: bool) -> (r: SkipPlan)
    ensures
        track_count == 0 ==> r == SkipPlan::Nothing,
        track_count > 0 && index >= track_count && loop_enabled ==> r == SkipPlan::RestartFromZero,
        track_count > 0 && index >= track_count && !loop_enabled ==> r == SkipPlan::Finish,
        track_count > 0 && index < track_count ==> r == SkipPlan::JumpTo(index),
{
    if track_count == 0 {
        SkipPlan::Nothing
    } else if index >= track_count {
        if loop_enabled {
            SkipPlan::RestartFromZero
        } else {
            SkipPlan::Finish
        }
    } else {
        SkipPlan::JumpTo(index)
    }
}

/// What a housekeeping tick does, given the playlist length, the tracks
/// appended to the sink so far, how many the sink still holds, and the
/// play/loop flags.
pub fn plan_tick(track_count: usize, appended: usize, queued: usize, playing: bool, loop_enabled: bool) -> (r:
    TickPlan)
    ensures
        track_count == 0 ==> r == TickPlan::Nothing,
        track_count > 0 && queued == 0 && !playing ==> r == TickPlan::Wait,
        track_count > 0 && queued == 0 && playing && loop_enabled ==> r == TickPlan::RestartFromZero,
        track_count > 0 && queued == 0 && playing && !loop_enabled ==> r == TickPlan::Finish,
        track_count > 0 && queued > 0 ==> r == TickPlan::Report(
            if appended >= queued {
                if appended - queued < track_count - 1 { (appended - queued) as usize } else { (track_count - 1) as usize }
            } else {
                0
            },
        ),
        r matches TickPlan::Report(i) ==> i < track_count,
{
    if track_count == 0 {
        return TickPlan::Nothing;
    }
    if queued == 0 {
        if !playing {
            return TickPlan::Wait;
        }
        if loop_enabled {
            return TickPlan::RestartFromZero;
        }
        return TickPlan::Finish;
    }
    let head = current_index(appended, queued);
    let last = track_count - 1;
    TickPlan::Report(
        if head < last {
            head
        } else {
            last
        },
    )
}

/// Whether two engine states read the same.
pub fn same_state(a: &EngineState, b: &EngineState) -> (r: bool)
    ensures
        r == state_eq(*a, *b),
{
    match (a, b) {
        (EngineState::Idle, EngineState::Idle) => true,
        (EngineState::Loading, EngineState::Loading) => true,
        (EngineState::Playing, EngineState::Playing) => true,
        (EngineState::Paused, EngineState::Paused) => true,
        (EngineState::Error(x), EngineState::Error(y)) => {
            crate::text::str_eq(x.as_str(), y.as_str())
        },
        _ => false,
    }
}

/// How many decoded tracks the sink is kept topped up to.
pub const WINDOW: usize = 3;

/// What an engine does to its audio sink.
#[derive(Debug, Clone, Copy, PartialEq, Eq)]
pub enum SinkOp {
    Play,
    Pause,
    Stop,
    /// Replace the sink with a fresh one, keeping the volume.
    Reset,
    /// Append decoded tracks until the sink holds [`WINDOW`] or every track
    /// is queued (see [`EngineCore::next_to_append`]).
    FillWindow,
    /// Forget the track list and its durations.
    ClearTracks,
}

/// One effect of an engine decision, in order.
#[derive(Debug, Clone, PartialEq, Eq)]
pub enum EngineStep {
    Sink(SinkOp),
    /// Report the state change.
    State(EngineState),
    /// Report that track `index` of `total` is now current.
    Track { index: usize, total: usize },
    /// Report the playback position within track `index`.
    Progress(usize),
    /// Report that the playlist ended.
    Finished,
}

/// A command to an engine, its track list and volume kept aside.
#[derive(Debug, Clone, Copy, PartialEq, Eq)]
pub enum CoreCommand {
    /// Replace the playlist with `count` tracks.
    Load { count: usize, loop_enabled: bool, autoplay: bool },
    Play,
    Pause,
    Stop,
    Next,
    Prev,
    SetLoop(bool),
    Shutdown,
}

/// The bookkeeping of one engine: how many tracks it has, how many it has fed
/// the sink, whether it plays and loops, and what it last reported.
#[derive(Debug, Clone)]
pub struct EngineCore {
    pub track_count: usize,
    /// Count of tracks pushed into the sink so far.
    pub appended: usize,
    pub loop_enabled: bool,
    pub playing: bool,
    pub last_state: EngineState,
    pub last_index: Option<usize>,
}

/// Report `s` unless it was the last state reported.
pub open spec fn state_step(c: EngineCore, s: EngineState) -> (EngineCore, Seq<EngineStep>) {
    if state_eq(c.last_state, s) {
        (c, Seq::empty())
    } else {
        (EngineCore { last_state: s, ..c }, seq![EngineStep::State(s)])
    }
}

/// Report track `index` unless it was the last track reported.
pub open spec fn track_step(c: EngineCore, index: usize) -> (EngineCore, Seq<EngineStep>) {
    if c.last_index == Some(index) {
        (c, Seq::empty())
    } else {
        (
            EngineCore { last_index: Some(index), ..c },
            seq![EngineStep::Track { index, total: c.track_count }],
        )
    }
}

/// Wrap back to the first track and keep playing.
pub open spec fn restart_spec(c: EngineCore) -> (EngineCore, Seq<EngineStep>) {
    let c1 = EngineCore { appended: 0, last_index: None, playing: true, ..c };
    let (c2, e2) = track_step(c1, 0);
    let (c3, e3) = state_step(c2, EngineState::Playing);
    (
        c3,
        seq![EngineStep::Sink(SinkOp::Reset), EngineStep::Sink(SinkOp::FillWindow), EngineStep::Sink(SinkOp::Play)]
            + e2 + e3,
    )
}

/// End the playlist: report it, go idle and forget the tracks.
pub open spec fn finish_spec(c: EngineCore) -> (EngineCore, Seq<EngineStep>) {
    let c1 = EngineCore { playing: false, ..c };
    let (c2, e2) = state_step(c1, EngineState::Idle);
    (
        EngineCore { track_count: 0, appended: 0, last_index: None, ..c2 },
        seq![EngineStep::Finished] + e2 + seq![
            EngineStep::Sink(SinkOp::Reset),
            EngineStep::Sink(SinkOp::ClearTracks),
        ],
    )
}

/// Jump to track `index`: past the end wraps (looping) or finishes; else the
/// sink is rebuilt from that track, keeping play/pause.
pub open spec fn skip_spec(c: EngineCore, index: usize) -> (EngineCore, Seq<EngineStep>) {
    if c.track_count == 0 {
        (c, Seq::empty())
    } else if index >= c.track_count {
        if c.loop_enabled {
            restart_spec(c)
        } else {
            finish_spec(c)
        }
    } else {
        let c1 = EngineCore { appended: index, ..c };
        let (c2, e2) = track_step(c1, index);
        (
            c2,
            seq![
                EngineStep::Sink(SinkOp::Reset),
                EngineStep::Sink(SinkOp::FillWindow),
                EngineStep::Sink(if c.playing { SinkOp::Play } else { SinkOp::Pause }),
            ] + e2,
        )
    }
}

/// The track at the head of a sink holding `sink_len` tracks.
pub open spec fn head_index(c: EngineCore, sink_len: usize) -> usize {
    if c.appended >= sink_len {
        (c.appended - sink_len) as usize
    } else {
        0
    }
}

/// What a command does, with the sink holding `sink_len` tracks; the flag
/// says whether the engine shuts down.
pub open spec fn command_spec(c: EngineCore, cmd: CoreCommand, sink_len: usize) -> (EngineCore, Seq<EngineStep>, bool) {
    match cmd {
        CoreCommand::Load { count, loop_enabled, autoplay } => {
            let (c1, e1) = state_step(c, EngineState::Loading);
            let c2 = EngineCore { track_count: count, loop_enabled, appended: 0, last_index: None, ..c1 };
            let fill = seq![EngineStep::Sink(SinkOp::Reset), EngineStep::Sink(SinkOp::FillWindow)];
            if count == 0 {
                let (c4, e4) = state_step(EngineCore { playing: false, ..c2 }, EngineState::Idle);
                (c4, e1 + fill + e4, false)
            } else if autoplay {
                let (c4, e4) = state_step(EngineCore { playing: true, ..c2 }, EngineState::Playing);
                let (c5, e5) = track_step(c4, 0);
                (c5, e1 + fill + seq![EngineStep::Sink(SinkOp::Play)] + e4 + e5, false)
            } else {
                let (c4, e4) = state_step(EngineCore { playing: false, ..c2 }, EngineState::Paused);
                let (c5, e5) = track_step(c4, 0);
                (c5, e1 + fill + seq![EngineStep::Sink(SinkOp::Pause)] + e4 + e5, false)
            }
        },
        CoreCommand::Play => if c.track_count > 0 {
            let (c2, e2) = state_step(EngineCore { playing: true, ..c }, EngineState::Playing);
            (c2, seq![EngineStep::Sink(SinkOp::Play)] + e2, false)
        } else {
            (c, Seq::empty(), false)
        },
        CoreCommand::Pause => {
            let c1 = EngineCore { playing: false, ..c };
            if c.track_count > 0 {
                let (c2, e2) = state_step(c1, EngineState::Paused);
                (c2, seq![EngineStep::Sink(SinkOp::Pause)] + e2, false)
            } else {
                (c1, seq![EngineStep::Sink(SinkOp::Pause)], false)
            }
        },
        CoreCommand::Stop => {
            let c1 = EngineCore { track_count: 0, appended: 0, playing: false, last_index: None, ..c };
            let (c2, e2) = state_step(c1, EngineState::Idle);
            (c2, seq![EngineStep::Sink(SinkOp::Reset), EngineStep::Sink(SinkOp::ClearTracks)] + e2, false)
        },
        CoreCommand::Next => {
            let h = head_index(c, sink_len);
            let (c2, e2) = skip_spec(c, if h < usize::MAX { (h + 1) as usize } else { h });
            (c2, e2, false)
        },
        CoreCommand::Prev => {
            let h = head_index(c, sink_len);
            let (c2, e2) = skip_spec(c, if h > 0 { (h - 1) as usize } else { 0 });
            (c2, e2, false)
        },
        CoreCommand::SetLoop(b) => (EngineCore { loop_enabled: b, ..c }, Seq::empty(), false),
        CoreCommand::Shutdown => (c, seq![EngineStep::Sink(SinkOp::Stop)], true),
    }
}

/// What a housekeeping tick does once the window has been topped up and the
/// sink holds `remaining` tracks.
pub open spec fn tick_spec(c: EngineCore, remaining: usize) -> (EngineCore, Seq<EngineStep>) {
    if c.track_count == 0 {
        (c, Seq::empty())
    } else if remaining == 0 {
        if !c.playing {
            (c, Seq::empty())
        } else if c.loop_enabled {
            restart_spec(c)
        } else {
            finish_spec(c)
        }
    } else {
        let h = head_index(c, remaining);
        let index = if h < c.track_count - 1 { h } else { (c.track_count - 1) as usize };
        let (c2, e2) = track_step(c, index);
        (c2, e2 + seq![EngineStep::Progress(index)])
    }
}

impl EngineCore {
    /// A fresh engine: idle, with no tracks.
    pub fn new() -> (r: Self)
        ensures
            r == (EngineCore {
                track_count: 0,
                appended: 0,
                loop_enabled: false,
                playing: false,
                last_state: EngineState::Idle,
                last_index: None,
            }),
    {
        EngineCore {
            track_count: 0,
            appended: 0,
            loop_enabled: false,
            playing: false,
            last_state: EngineState::Idle,
            last_index: None,
        }
    }

    /// While filling the window: the track to append next, if the sink holds
    /// fewer than [`WINDOW`] (`sink_len`) and some track is not queued yet.
    /// The caller appends it (or skips an unreadable one) and then calls
    /// [`EngineCore::mark_appended`].
    pub fn next_to_append(&self, sink_len: usize) -> (r: Option<usize>)
        ensures
            r == (if sink_len < WINDOW && self.appended < self.track_count {
                Some(self.appended)
            } else {
                None
            }),
    {
        if sink_len < WINDOW && self.appended < self.track_count {
            Some(self.appended)
        } else {
            None
        }
    }

    /// Count one more track as pushed into the sink.
    pub fn mark_appended(&mut self)
        requires
            old(self).appended < old(self).track_count,
        ensures
            *final(self) == (EngineCore { appended: (old(self).appended + 1) as usize, ..*old(self) }),
    {
        self.appended = self.appended + 1;
    }

    /// Keep only the first `keep` tracks (those whose files exist), so the
    /// engine ends cleanly on what it has.
    pub fn truncate(&mut self, keep: usize)
        ensures
            final(self).track_count == (if keep < old(self).track_count { keep } else { old(self).track_count }),
            final(self).appended == (if old(self).appended <= final(self).track_count {
                old(self).appended
            } else {
                final(self).track_count
            }),
            final(self).loop_enabled == old(self).loop_enabled,
            final(self).playing == old(self).playing,
            final(self).last_state == old(self).last_state,
            final(self).last_index == old(self).last_index,
    {
        if keep < self.track_count {
            self.track_count = keep;
        }
        if self.appended > self.track_count {
            self.appended = self.track_count;
        }
    }

    fn set_state(&mut self, s: EngineState, steps: &mut Vec<EngineStep>)
        ensures
            *final(self) == state_step(*old(self), s).0,
            final(steps)@ == old(steps)@ + state_step(*old(self), s).1,
    {
        if !same_state(&self.last_state, &s) {
            self.last_state = s.clone();
            steps.push(EngineStep::State(s));
        }
    }

    fn track_changed(&mut self, index: usize, steps: &mut Vec<EngineStep>)
        ensures
            *final(self) == track_step(*old(self), index).0,
            final(steps)@ == old(steps)@ + track_step(*old(self), index).1,
    {
        let same = match self.last_index {
            Some(i) => i == index,
            None => false,
        };
        if !same {
            self.last_index = Some(index);
            steps.push(EngineStep::Track { index, total: self.track_count });
        }
    }

    fn restart(&mut self, steps: &mut Vec<EngineStep>)
        ensures
            *final(self) == restart_spec(*old(self)).0,
            final(steps)@ == old(steps)@ + restart_spec(*old(self)).1,
    {
        let ghost start = steps@;
        steps.push(EngineStep::Sink(SinkOp::Reset));
        self.appended = 0;
        self.last_index = None;
        steps.push(EngineStep::Sink(SinkOp::FillWindow));
        steps.push(EngineStep::Sink(SinkOp::Play));
        self.playing = true;
        self.track_changed(0, steps);
        self.set_state(EngineState::Playing, steps);
        proof {
            let c1 = EngineCore { appended: 0, last_index: None, playing: true, ..*old(self) };
            let (c2, e2) = track_step(c1, 0);
            assert(steps@ =~= start + (seq![
                EngineStep::Sink(SinkOp::Reset),
                EngineStep::Sink(SinkOp::FillWindow),
                EngineStep::Sink(SinkOp::Play),
            ] + e2 + state_step(c2, EngineState::Playing).1));
        }
    }

    fn finish(&mut self, steps: &mut Vec<EngineStep>)
        ensures
            *final(self) == finish_spec(*old(self)).0,
            final(steps)@ == old(steps)@ + finish_spec(*old(self)).1,
    {
        let ghost start = steps@;
        self.playing = false;
        steps.push(EngineStep::Finished);
        self.set_state(EngineState::Idle, steps);
        steps.push(EngineStep::Sink(SinkOp::Reset));
        steps.push(EngineStep::Sink(SinkOp::ClearTracks));
        self.track_count = 0;
        self.appended = 0;
        self.last_index = None;
        proof {
            let c1 = EngineCore { playing: false, ..*old(self) };
            assert(steps@ =~= start + (seq![EngineStep::Finished] + state_step(c1, EngineState::Idle).1 + seq![
                EngineStep::Sink(SinkOp::Reset),
                EngineStep::Sink(SinkOp::ClearTracks),
            ]));
        }
    }

    fn skip_to(&mut self, index: usize, steps: &mut Vec<EngineStep>)
        ensures
            *final(self) == skip_spec(*old(self), index).0,
            final(steps)@ == old(steps)@ + skip_spec(*old(self), index).1,
    {
        if self.track_count == 0 {
            assert(steps@ =~= old(steps)@ + Seq::<EngineStep>::empty());
            return;
        }
        if index >= self.track_count {
            if self.loop_enabled {
                self.restart(steps);
            } else {
                self.finish(steps);
            }
            return;
        }
        let ghost start = steps@;
        steps.push(EngineStep::Sink(SinkOp::Reset));
        self.appended = index;
        steps.push(EngineStep::Sink(SinkOp::FillWindow));
        if self.playing {
            steps.push(EngineStep::Sink(SinkOp::Play));
        } else {
            steps.push(EngineStep::Sink(SinkOp::Pause));
        }
        self.track_changed(index, steps);
        proof {
            let c1 = EngineCore { appended: index, ..*old(self) };
            assert(steps@ =~= start + (seq![
                EngineStep::Sink(SinkOp::Reset),
                EngineStep::Sink(SinkOp::FillWindow),
                EngineStep::Sink(if old(self).playing { SinkOp::Play } else { SinkOp::Pause }),
            ] + track_step(c1, index).1));
        }
    }

    /// Apply one command, with the sink holding `sink_len` tracks. Returns the
    /// effects to carry out in order, and whether the engine shuts down.
    pub fn command(&mut self, cmd: CoreCommand, sink_len: usize) -> (r: (Vec<EngineStep>, bool))
        ensures
            *final(self) == command_spec(*old(self), cmd, sink_len).0,
            r.0@ == command_spec(*old(self), cmd, sink_len).1,
            r.1 == command_spec(*old(self), cmd, sink_len).2,
    {
        let mut steps: Vec<EngineStep> = Vec::new();
        match cmd {
            CoreCommand::Load { count, loop_enabled, autoplay } => {
                self.set_state(EngineState::Loading, &mut steps);
                let ghost e1 = steps@;
                let ghost c1 = *self;
                steps.push(EngineStep::Sink(SinkOp::Reset));
                self.track_count = count;
                self.loop_enabled = loop_enabled;
                self.appended = 0;
                self.last_index = None;
                steps.push(EngineStep::Sink(SinkOp::FillWindow));
                let ghost fill = seq![EngineStep::Sink(SinkOp::Reset), EngineStep::Sink(SinkOp::FillWindow)];
                assert(steps@ =~= e1 + fill);
                if count == 0 {
                    self.playing = false;
                    self.set_state(EngineState::Idle, &mut steps);
                    return (steps, false);
                }
                if autoplay {
                    steps.push(EngineStep::Sink(SinkOp::Play));
                    self.playing = true;
                    let ghost mid = steps@;
                    self.set_state(EngineState::Playing, &mut steps);
                    let ghost e4 = steps@.subrange(mid.len() as int, steps@.len() as int);
                    assert(steps@ =~= mid + e4);
                } else {
                    steps.push(EngineStep::Sink(SinkOp::Pause));
                    self.playing = false;
                    let ghost mid = steps@;
                    self.set_state(EngineState::Paused, &mut steps);
                    let ghost e4 = steps@.subrange(mid.len() as int, steps@.len() as int);
                    assert(steps@ =~= mid + e4);
                }
                self.track_changed(0, &mut steps);
                proof {
                    let c2 = EngineCore { track_count: count, loop_enabled, appended: 0, last_index: None, ..c1 };
                    if autoplay {
                        let (c4, e4) = state_step(EngineCore { playing: true, ..c2 }, EngineState::Playing);
                        let (c5, e5) = track_step(c4, 0);
                        assert(steps@ =~= e1 + fill + seq![EngineStep::Sink(SinkOp::Play)] + e4 + e5);
                    } else {
                        let (c4, e4) = state_step(EngineCore { playing: false, ..c2 }, EngineState::Paused);
                        let (c5, e5) = track_step(c4, 0);
                        assert(steps@ =~= e1 + fill + seq![EngineStep::Sink(SinkOp::Pause)] + e4 + e5);
                    }
                }
                (steps, false)
            },
            CoreCommand::Play => {
                if self.track_count > 0 {
                    steps.push(EngineStep::Sink(SinkOp::Play));
                    self.playing = true;
                    self.set_state(EngineState::Playing, &mut steps);
                }
                (steps, false)
            },
            CoreCommand::Pause => {
                steps.push(EngineStep::Sink(SinkOp::Pause));
                self.playing = false;
                if self.track_count > 0 {
                    self.set_state(EngineState::Paused, &mut steps);
                }
                (steps, false)
            },
            CoreCommand::Stop => {
                steps.push(EngineStep::Sink(SinkOp::Reset));
                steps.push(EngineStep::Sink(SinkOp::ClearTracks));
                self.track_count = 0;
                self.appended = 0;
                self.playing = false;
                self.last_index = None;
                self.set_state(EngineState::Idle, &mut steps);
                (steps, false)
            },
            CoreCommand::Next => {
                let h = current_index(self.appended, sink_len);
                self.skip_to(next_target(h), &mut steps);
                assert(steps@ =~= Seq::<EngineStep>::empty() + skip_spec(*old(self), if h < usize::MAX { (h + 1) as usize } else { h }).1);
                (steps, false)
            },
            CoreCommand::Prev => {
                let h = current_index(self.appended, sink_len);
                self.skip_to(prev_target(h), &mut steps);
                assert(steps@ =~= Seq::<EngineStep>::empty() + skip_spec(*old(self), if h > 0 { (h - 1) as usize } else { 0 }).1);
                (steps, false)
            },
            CoreCommand::SetLoop(b) => {
                self.loop_enabled = b;
                (steps, false)
            },
            CoreCommand::Shutdown => {
                steps.push(EngineStep::Sink(SinkOp::Stop));
                (steps, true)
            },
        }
    }

    /// One housekeeping tick, after the window was topped up and the sink
    /// holds `remaining` tracks: wait, wrap, finish, or report the current
    /// track and its position.
    pub fn tick(&mut self, remaining: usize) -> (r: Vec<EngineStep>)
        ensures
            *final(self) == tick_spec(*old(self), remaining).0,
            r@ == tick_spec(*old(self), remaining).1,
    {
        let mut steps: Vec<EngineStep> = Vec::new();
        match plan_tick(self.track_count, self.appended, remaining, self.playing, self.loop_enabled) {
            TickPlan::Nothing | TickPlan::Wait => {},
            TickPlan::RestartFromZero => self.restart(&mut steps),
            TickPlan::Finish => self.finish(&mut steps),
            TickPlan::Report(index) => {
                self.track_changed(index, &mut steps);
                steps.push(EngineStep::Progress(index));
            },
        }
        assert(steps@ =~= Seq::<EngineStep>::empty() + steps@);
        steps
    }
}

} // verus!
