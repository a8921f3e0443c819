//! Keys that work on every tab, and the transport decisions they and the OS
//! media keys lead to.

use vstd::prelude::*;

use crate::app::Tab;
use crate::audio::engine::EngineState;
use crate::config::AppConfig;
use crate::event::MediaAction;
use crate::model::playlist::PlaylistItem;

verus! {

/// A key as the global handler sees it.
#[derive(Debug, Clone, Copy, PartialEq, Eq)]
pub enum GlobalKey {
    Char(char),
    Tab,
    BackTab,
    Other,
}

/// What a global key asks for.
#[derive(Debug, Clone, Copy, PartialEq, Eq)]
pub enum GlobalAction {
    Quit,
    ShowHelp,
    /// Move through the tab strip by this many tabs.
    CycleTab(isize),
    SelectTab(Tab),
    TogglePlay,
    StopFocused,
    NextTrack,
    PrevTrack,
    ToggleLoop,
    VolumeUp,
    VolumeDown,
    PlayAll,
    PauseAll,
    StopAll,
    Nothing,
}

/// The action of a key that no tab consumed (`ctrl` when Control is held),
/// on tab `active`: `q` or Ctrl+C quit, `?` shows help, Tab/BackTab and
/// `1`–`4` switch tabs, Space/`s`/`n`/`p`/`l`/`+`/`=`/`-` drive the focused
/// output (`s` stops except on Browse), and `A`/`P`/`S` play, pause or stop
/// every output.
pub open spec fn global_action_spec(key: GlobalKey, ctrl: bool, active: Tab) -> GlobalAction {
    match key {
        GlobalKey::Char(c) => if c == 'c' && ctrl {
            GlobalAction::Quit
        } else if c == 'q' {
            GlobalAction::Quit
        } else if c == '?' {
            GlobalAction::ShowHelp
        } else if c == '1' {
            GlobalAction::SelectTab(Tab::NowPlaying)
        } else if c == '2' {
            GlobalAction::SelectTab(Tab::Browse)
        } else if c == '3' {
            GlobalAction::SelectTab(Tab::Outputs)
        } else if c == '4' {
            GlobalAction::SelectTab(Tab::Playlists)
        } else if c == ' ' {
            GlobalAction::TogglePlay
        } else if c == 's' && active != Tab::Browse {
            GlobalAction::StopFocused
        } else if c == 'n' {
            GlobalAction::NextTrack
        } else if c == 'p' {
            GlobalAction::PrevTrack
        } else if c == 'l' {
            GlobalAction::ToggleLoop
        } else if c == '+' || c == '=' {
            GlobalAction::VolumeUp
        } else if c == '-' {
            GlobalAction::VolumeDown
        } else if c == 'A' {
            GlobalAction::PlayAll
        } else if c == 'P' {
            GlobalAction::PauseAll
        } else if c == 'S' {
            GlobalAction::StopAll
        } else {
            GlobalAction::Nothing
        },
        GlobalKey::Tab => GlobalAction::CycleTab(1isize),
        GlobalKey::BackTab => GlobalAction::CycleTab(-1isize),
        GlobalKey::Other => GlobalAction::Nothing,
    }
}

/// The action of a global key; see [`global_action_spec`].
pub fn global_action(key: GlobalKey, ctrl: bool, active: Tab) -> (r: GlobalAction)
    ensures
        r == global_action_spec(key, ctrl, active),
{
    match key {
        GlobalKey::Char(c) => {
            if c == 'c' && ctrl {
                GlobalAction::Quit
            } else if c == 'q' {
                GlobalAction::Quit
            } else if c == '?' {
                GlobalAction::ShowHelp
            } else if c == '1' {
                GlobalAction::SelectTab(Tab::NowPlaying)
            } else if c == '2' {
                GlobalAction::SelectTab(Tab::Browse)
            } else if c == '3' {
                GlobalAction::SelectTab(Tab::Outputs)
            } else if c == '4' {
                GlobalAction::SelectTab(Tab::Playlists)
            } else if c == ' ' {
                GlobalAction::TogglePlay
            } else if c == 's' && !matches!(active, Tab::Browse) {
                GlobalAction::StopFocused
            } else if c == 'n' {
                GlobalAction::NextTrack
            } else if c == 'p' {
                GlobalAction::PrevTrack
            } else if c == 'l' {
                GlobalAction::ToggleLoop
            } else if c == '+' || c == '=' {
                GlobalAction::VolumeUp
            } else if c == '-' {
                GlobalAction::VolumeDown
            } else if c == 'A' {
                GlobalAction::PlayAll
            } else if c == 'P' {
                GlobalAction::PauseAll
            } else if c == 'S' {
                GlobalAction::StopAll
            } else {
                GlobalAction::Nothing
            }
        },
        GlobalKey::Tab => GlobalAction::CycleTab(1),
        GlobalKey::BackTab => GlobalAction::CycleTab(-1),
        GlobalKey::Other => GlobalAction::Nothing,
    }
}

/// What play/pause does to an output.
#[derive(Debug, Clone, Copy, PartialEq, Eq)]
pub enum TransportPlan {
    /// Send the engine `Pause`.
    Pause,
    /// Send the engine `Play`.
    Play,
    /// Nothing is loaded: resolve the selection and start playing it.
    Start,
    /// Send the engine `Next`.
    Next,
    /// Send the engine `Prev`.
    Prev,
    /// Stop the engine and forget its tracks.
    Stop,
}

/// Play/pause on an output in `state` with `track_total` tracks loaded:
/// pause while playing, else play what is loaded, else start the selection.
pub fn toggle_play_plan(state: &EngineState, track_total: usize) -> (r: TransportPlan)
    ensures
        r == (if *state == EngineState::Playing {
            TransportPlan::Pause
        } else if track_total == 0 {
            TransportPlan::Start
        } else {
            TransportPlan::Play
        }),
{
    match state {
        EngineState::Playing => TransportPlan::Pause,
        _ => {
            if track_total == 0 {
                TransportPlan::Start
            } else {
                TransportPlan::Play
            }
        },
    }
}

/// Play on an output with `track_total` tracks loaded: play them, or start
/// the selection when nothing is loaded.
pub fn play_plan(track_total: usize) -> (r: TransportPlan)
    ensures
        r == (if track_total == 0 { TransportPlan::Start } else { TransportPlan::Play }),
{
    if track_total == 0 {
        TransportPlan::Start
    } else {
        TransportPlan::Play
    }
}

/// What an OS media-control event does to the focused output — the same as
/// the in-app keys Space, `n`, `p` and `s`.
pub fn media_plan(action: MediaAction, state: &EngineState, track_total: usize) -> (r: TransportPlan)
    ensures
        r == match action {
            MediaAction::Toggle => if *state == EngineState::Playing {
                TransportPlan::Pause
            } else if track_total == 0 {
                TransportPlan::Start
            } else {
                TransportPlan::Play
            },
            MediaAction::Play => if track_total == 0 {
                TransportPlan::Start
            } else {
                TransportPlan::Play
            },
            MediaAction::Pause => TransportPlan::Pause,
            MediaAction::Next => TransportPlan::Next,
            MediaAction::Prev => TransportPlan::Prev,
            MediaAction::Stop => TransportPlan::Stop,
        },
{
    match action {
        MediaAction::Toggle => toggle_play_plan(state, track_total),
        MediaAction::Play => play_plan(track_total),
        MediaAction::Pause => TransportPlan::Pause,
        MediaAction::Next => TransportPlan::Next,
        MediaAction::Prev => TransportPlan::Prev,
        MediaAction::Stop => TransportPlan::Stop,
    }
}

/// The settings to save for the focused output's selection: its reciter and
/// first surah.
pub fn remember_selection(config: &mut AppConfig, sel: &PlaylistItem)
    ensures
        final(config).audio_root == old(config).audio_root,
        final(config).last_reciter_id == sel.reciter_id,
        final(config).last_surah == sel.from_surah,
{
    config.last_reciter_id = sel.reciter_id.clone();
    config.last_surah = sel.from_surah;
}

/// Where Up/Down on Now Playing move focus: only with several outputs.
pub fn now_playing_focus_delta(outputs: usize, up: bool, down: bool) -> (r: Option<isize>)
    ensures
        r == (if outputs <= 1 {
            None
        } else if up {
            Some(-1isize)
        } else if down {
            Some(1isize)
        } else {
            None
        }),
{
    if outputs <= 1 {
        None
    } else if up {
        Some(-1)
    } else if down {
        Some(1)
    } else {
        None
    }
}

} // verus!
