//! Per-output playback status: what an output mirrors of its engine thread and
//! of an on-demand download, and how engine events and download updates change
//! it. The engine's clock (elapsed time, track length) and the output's audio
//! settings live beside it at the application edge.

use vstd::prelude::*;

use crate::audio::engine::{EngineEvent, EngineState};
use crate::event::DownloadUpdate;

verus! {

/// Identifies one output channel. Monotonically increasing; output `0` is always
/// the system default and can never be removed.
pub type OutputId = u32;

/// In-flight download state for one output.
#[derive(Debug, Clone)]
pub struct DownloadProgress {
    pub done: usize,
    pub total: usize,
    /// Label of the most recently fetched file.
    pub label: String,
    /// Whether to start playing once the download completes.
    pub autoplay: bool,
    /// `Some` when this download was triggered to play a playlist — its id, so
    /// the completion handler re-resolves and plays that playlist.
    pub playlist_id: Option<String>,
}

impl DownloadProgress {
    /// A download of `total` files that has not fetched any yet.
    pub fn starting(total: usize, autoplay: bool, playlist_id: Option<String>) -> (r: Self)
        ensures
            r.done == 0,
            r.total == total,
            r.label@ == "starting"@,
            r.autoplay == autoplay,
            r.playlist_id == playlist_id,
    {
        DownloadProgress { done: 0, total, label: String::from_str("starting"), autoplay, playlist_id }
    }
}

/// What an output mirrors of its engine and its download.
pub struct OutputStatus {
    pub state: EngineState,
    pub track_index: usize,
    pub track_total: usize,
    /// Human-readable label per track, e.g. `18:5` — parallel to the playlist.
    pub track_labels: Vec<String>,
    /// True when playing a whole-surah file because per-ayah files were absent.
    pub is_fallback: bool,
    /// `Some` while an on-demand download is running for this output.
    pub download: Option<DownloadProgress>,
}

/// What a download update asks of the output's owner.
#[derive(Debug, PartialEq, Eq)]
pub enum DownloadOutcome {
    /// Progress was recorded (or there was no download to record it on).
    Progressed,
    /// The download finished; the engine has been picking files up as they
    /// arrived, so only the indicator goes.
    Completed,
    /// The download failed after something played, or while playing a
    /// playlist: the engine should drop the tracks whose files are missing.
    DropMissing(String),
    /// The download failed before anything played: stop the engine and try the
    /// whole-surah file instead.
    StopAndFallBack(String),
}

/// The track `status` is on has already started or passed: a later track is
/// current, or the current one's clock has moved.
pub open spec fn already_played(track_index: usize, elapsed_is_zero: bool) -> bool {
    track_index > 0 || !elapsed_is_zero
}

impl OutputStatus {
    /// A fresh output: idle, with nothing loaded or downloading.
    pub fn idle() -> (r: Self)
        ensures
            r.state == EngineState::Idle,
            r.track_index == 0,
            r.track_total == 0,
            r.track_labels@.len() == 0,
            !r.is_fallback,
            r.download is None,
    {
        OutputStatus {
            state: EngineState::Idle,
            track_index: 0,
            track_total: 0,
            track_labels: Vec::new(),
            is_fallback: false,
            download: None,
        }
    }

    /// True when this output is actively playing audio.
    pub fn is_playing(&self) -> (r: bool)
        ensures
            r == (self.state == EngineState::Playing),
    {
        match self.state {
            EngineState::Playing => true,
            _ => false,
        }
    }

    /// Label of the currently playing track, if any.
    pub fn current_track_label(&self) -> (r: Option<&str>)
        ensures
            self.track_index < self.track_labels@.len() ==> (r matches Some(l) && l@
                == self.track_labels@[self.track_index as int]@),
            self.track_index >= self.track_labels@.len() ==> r is None,
    {
        if self.track_index < self.track_labels.len() {
            Some(self.track_labels[self.track_index].as_str())
        } else {
            None
        }
    }

    /// Record a newly loaded track list: `total` tracks labelled `labels`,
    /// starting at the first; `fallback` marks a whole-surah file.
    pub fn load(&mut self, labels: Vec<String>, total: usize, fallback: bool)
        ensures
            final(self).state == old(self).state,
            final(self).download == old(self).download,
            final(self).is_fallback == fallback,
            final(self).track_total == total,
            final(self).track_index == 0,
            final(self).track_labels@ == labels@,
    {
        self.is_fallback = fallback;
        self.track_total = total;
        self.track_index = 0;
        self.track_labels = labels;
    }

    /// Forget the loaded tracks (after a stop).
    pub fn clear_tracks(&mut self)
        ensures
            final(self).state == old(self).state,
            final(self).download == old(self).download,
            final(self).is_fallback == old(self).is_fallback,
            final(self).track_index == 0,
            final(self).track_total == 0,
            final(self).track_labels@.len() == 0,
    {
        self.track_index = 0;
        self.track_total = 0;
        self.track_labels = Vec::new();
    }

    /// Apply an event from this output's engine. Returns `true` when the
    /// playlist finished: the engine is idle and nothing is loaded. Progress
    /// events carry only the engine's clock, which the caller keeps.
    pub fn apply_engine_event(&mut self, event: EngineEvent) -> (finished: bool)
        ensures
            finished == (event is Finished),
            final(self).download == old(self).download,
            final(self).is_fallback == old(self).is_fallback,
            match event {
                EngineEvent::StateChanged(state) => {
                    &&& final(self).state == state
                    &&& final(self).track_index == old(self).track_index
                    &&& final(self).track_total == old(self).track_total
                    &&& final(self).track_labels == old(self).track_labels
                },
                EngineEvent::TrackChanged { index, total } => {
                    &&& final(self).state == old(self).state
                    &&& final(self).track_index == index
                    &&& final(self).track_total == total
                    &&& final(self).track_labels == old(self).track_labels
                },
                EngineEvent::Progress { .. } => *final(self) == *old(self),
                EngineEvent::Finished => {
                    &&& final(self).state == EngineState::Idle
                    &&& final(self).track_index == 0
                    &&& final(self).track_total == 0
                    &&& final(self).track_labels@.len() == 0
                },
            },
    {
        match event {
            EngineEvent::StateChanged(state) => {
                self.state = state;
                false
            },
            EngineEvent::TrackChanged { index, total } => {
                self.track_index = index;
                self.track_total = total;
                false
            },
            EngineEvent::Progress { .. } => false,
            EngineEvent::Finished => {
                self.state = EngineState::Idle;
                self.clear_tracks();
                true
            },
        }
    }

    /// Apply an update from this output's download worker. `elapsed_is_zero`
    /// says whether the engine's clock still reads zero.
    pub fn apply_download_update(&mut self, update: DownloadUpdate, elapsed_is_zero: bool) -> (r: DownloadOutcome)
        ensures
            final(self).state == old(self).state,
            final(self).track_index == old(self).track_index,
            final(self).track_total == old(self).track_total,
            final(self).track_labels == old(self).track_labels,
            final(self).is_fallback == old(self).is_fallback,
            match update {
                DownloadUpdate::Progress { done, total, label } => {
                    &&& r == DownloadOutcome::Progressed
                    &&& match old(self).download {
                        Some(p) => final(self).download == Some(
                            DownloadProgress { done, total, label, autoplay: p.autoplay, playlist_id: p.playlist_id },
                        ),
                        None => final(self).download is None,
                    }
                },
                DownloadUpdate::Completed => r == DownloadOutcome::Completed && final(self).download is None,
                DownloadUpdate::Failed(err) => {
                    &&& final(self).download is None
                    &&& if already_played(old(self).track_index, elapsed_is_zero) || (old(self).download matches Some(
                        p,
                    ) && p.playlist_id is Some) {
                        r == DownloadOutcome::DropMissing(err)
                    } else {
                        r == DownloadOutcome::StopAndFallBack(err)
                    }
                },
            },
    {
        match update {
            DownloadUpdate::Progress { done, total, label } => {
                match self.download.take() {
                    Some(p) => {
                        self.download = Some(
                            DownloadProgress { done, total, label, autoplay: p.autoplay, playlist_id: p.playlist_id },
                        );
                    },
                    None => {},
                }
                DownloadOutcome::Progressed
            },
            DownloadUpdate::Completed => {
                self.download = None;
                DownloadOutcome::Completed
            },
            DownloadUpdate::Failed(err) => {
                let was_playlist = match &self.download {
                    Some(p) => p.playlist_id.is_some(),
                    None => false,
                };
                self.download = None;
                if self.track_index > 0 || !elapsed_is_zero || was_playlist {
                    DownloadOutcome::DropMissing(err)
                } else {
                    DownloadOutcome::StopAndFallBack(err)
                }
            },
        }
    }
}

/// `"Download failed: <err>"`, shown when the engine keeps what it has.
pub fn download_failed_text(err: &str) -> (r: String)
    ensures
        r@ == "Download failed: "@ + err@,
{
    let mut t = String::from_str("Download failed: ");
    t.append(err);
    t
}

/// `"Download failed (<err>) — playing whole-surah file"`, shown when the
/// whole-surah file plays instead.
pub fn download_fallback_text(err: &str) -> (r: String)
    ensures
        r@ == "Download failed ("@ + err@ + ") \u{2014} playing whole-surah file"@,
{
    let mut t = String::from_str("Download failed (");
    t.append(err);
    t.append(") \u{2014} playing whole-surah file");
    t
}

} // verus!
