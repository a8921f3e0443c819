//! Tests for playback planning: starting a selection, flattening a playlist,
//! the status messages, and how outputs mirror engine events and downloads.

use quran_tui::app::{current_verse, now_playing_text, ToastKind, VerseView};
use quran_tui::audio::engine::{EngineEvent, EngineState};
use quran_tui::content::downloader::{file_update, finished_update, start_update};
use quran_tui::domain::catalog::{Catalog, Reciter, Surah};
use quran_tui::domain::verses::{SurahVerses, Verse};
use quran_tui::event::DownloadUpdate;
use quran_tui::model::output::{
    download_failed_text, download_fallback_text, DownloadOutcome, DownloadProgress, OutputStatus,
};
use quran_tui::model::playlist::PlaylistItem;
use quran_tui::playback::{
    flatten_playlist, full_surah_title, plan_fallback, plan_playlist, plan_start, playlist_notice, start_notice,
    PlaylistPlan, StartPlan,
};
use std::collections::{HashMap, HashSet};
use quran_tui::domain::segment::is_segmentable;
use quran_tui::playback::{can_plan_playlist, can_plan_selection, start_playlist, EngineOrder};

const ROOT: &str = "/nonexistent/quran-audio";

fn surah(number: u16, name: &str, ayah_count: u16) -> Surah {
    Surah {
        number,
        name_transliterated: name.to_string(),
        name_arabic: String::new(),
        ayah_count,
        revelation_place: "Meccan".into(),
    }
}

fn catalog() -> Catalog {
    Catalog {
        surahs: vec![surah(1, "Al-Fatihah", 7), surah(112, "Al-Ikhlas", 4), surah(113, "Al-Falaq", 5)],
        reciters: vec![Reciter {
            id: "alafasy".into(),
            display_name: "Mishary Alafasy".into(),
            file_slug: "mishary-alafasy".into(),
            per_ayah_directory_slug: "Alafasy_64kbps".into(),
        }],
    }
}

fn sel(reciter: &str, from_surah: u16, from_ayah: u16, to_surah: u16, to_ayah: u16) -> PlaylistItem {
    PlaylistItem { reciter_id: reciter.into(), from_surah, from_ayah, to_surah, to_ayah }
}

#[test]
fn start_refuses_while_downloading_and_for_unknown_reciters() {
    let cat = catalog();
    assert!(matches!(plan_start(&cat, ROOT, &sel("alafasy", 112, 1, 112, 4), true), StartPlan::DownloadBusy));
    let plan = plan_start(&cat, ROOT, &sel("nobody", 112, 1, 112, 4), false);
    assert!(matches!(plan, StartPlan::UnknownReciter));
    assert_eq!(start_notice(&plan), Some(("Unknown reciter".to_string(), ToastKind::Error)));
    let plan = plan_start(&cat, ROOT, &sel("alafasy", 50, 1, 60, 4), false);
    assert!(matches!(plan, StartPlan::NothingToPlay));
    assert_eq!(start_notice(&plan), Some(("Nothing to play for that range".to_string(), ToastKind::Warn)));
}

#[test]
fn start_downloads_missing_files_and_plays_as_they_arrive() {
    let cat = catalog();
    let plan = plan_start(&cat, ROOT, &sel("alafasy", 112, 1, 112, 4), false);
    let StartPlan::Download { segments, tracks, labels, missing } = &plan else {
        panic!("expected a download");
    };
    assert_eq!(segments.len(), 1);
    assert_eq!(tracks.len(), 5);
    assert_eq!(tracks[0], "/nonexistent/quran-audio/Alafasy_64kbps/001/001.mp3");
    assert_eq!(tracks[4], "/nonexistent/quran-audio/Alafasy_64kbps/112/004.mp3");
    assert_eq!(labels, &vec!["Bismillah", "112:1", "112:2", "112:3", "112:4"]);
    assert_eq!(missing.len(), 5);
    assert_eq!(
        start_notice(&plan),
        Some(("Downloading 5 ayah file(s) \u{2014} playing as they arrive".to_string(), ToastKind::Info))
    );
    assert_eq!(plan_fallback(&cat, ROOT, &sel("alafasy", 112, 1, 112, 4)), None);
}

#[test]
fn playlists_flatten_in_order_and_skip_unknown_reciters() {
    let cat = catalog();
    let items = vec![
        sel("alafasy", 113, 2, 113, 3),
        sel("nobody", 1, 1, 1, 7),
        sel("alafasy", 1, 6, 1, 7),
    ];
    let load = flatten_playlist(&cat, ROOT, &items);
    assert_eq!(load.labels, vec!["113:2", "113:3", "1:6", "1:7"]);
    assert_eq!(load.tracks.len(), 4);
    assert_eq!(load.segments.len(), 2);
    assert_eq!(load.missing.len(), 4);
    let plan = plan_playlist(&cat, ROOT, &items, false);
    assert_eq!(
        playlist_notice(&plan, "Evening"),
        Some((
            "Downloading 4 ayah file(s) for \"Evening\" \u{2014} playing as they arrive".to_string(),
            ToastKind::Info
        ))
    );
    assert!(matches!(plan_playlist(&cat, ROOT, &[], false), PlaylistPlan::Empty));
    assert!(matches!(plan_playlist(&cat, ROOT, &items, true), PlaylistPlan::DownloadBusy));
    let unknown = vec![sel("nobody", 1, 1, 1, 7)];
    let plan = plan_playlist(&cat, ROOT, &unknown, false);
    assert!(matches!(plan, PlaylistPlan::NothingToPlay));
    assert_eq!(
        playlist_notice(&plan, "x"),
        Some(("Nothing to play in this playlist".to_string(), ToastKind::Warn))
    );
}

#[test]
fn full_surah_titles() {
    let cat = catalog();
    assert_eq!(full_surah_title(&cat, 112), "Al-Ikhlas (full surah)");
    assert_eq!(full_surah_title(&cat, 50), "Full surah");
}

fn status() -> OutputStatus {
    let mut s = OutputStatus::idle();
    s.load(vec!["112:1".into(), "112:2".into()], 2, false);
    s
}

#[test]
fn engine_events_update_the_mirror() {
    let mut s = status();
    assert!(!s.apply_engine_event(EngineEvent::StateChanged(EngineState::Playing)));
    assert!(s.is_playing());
    s.apply_engine_event(EngineEvent::TrackChanged { index: 1, total: 2 });
    assert_eq!(s.current_track_label(), Some("112:2"));
    assert!(s.apply_engine_event(EngineEvent::Finished));
    assert_eq!(s.state, EngineState::Idle);
    assert_eq!((s.track_index, s.track_total, s.track_labels.len()), (0, 0, 0));
    assert_eq!(s.current_track_label(), None);
}

#[test]
fn download_updates_and_failures() {
    let mut s = status();
    s.download = Some(DownloadProgress::starting(2, true, None));
    let outcome = s.apply_download_update(DownloadUpdate::Progress { done: 1, total: 2, label: "112:1".into() }, true);
    assert_eq!(outcome, DownloadOutcome::Progressed);
    let p = s.download.as_ref().unwrap();
    assert_eq!((p.done, p.total, p.label.as_str(), p.autoplay), (1, 2, "112:1", true));
    // Nothing played yet: fall back to the whole-surah file.
    let outcome = s.apply_download_update(DownloadUpdate::Failed("timeout".into()), true);
    assert_eq!(outcome, DownloadOutcome::StopAndFallBack("timeout".into()));
    assert!(s.download.is_none());
    // Something played: keep what arrived.
    s.download = Some(DownloadProgress::starting(2, true, None));
    let outcome = s.apply_download_update(DownloadUpdate::Failed("timeout".into()), false);
    assert_eq!(outcome, DownloadOutcome::DropMissing("timeout".into()));
    // A playlist never falls back.
    s.download = Some(DownloadProgress::starting(2, true, Some("p".into())));
    let outcome = s.apply_download_update(DownloadUpdate::Failed("x".into()), true);
    assert_eq!(outcome, DownloadOutcome::DropMissing("x".into()));
    s.download = Some(DownloadProgress::starting(2, true, None));
    assert_eq!(s.apply_download_update(DownloadUpdate::Completed, true), DownloadOutcome::Completed);
    assert!(s.download.is_none());
    assert_eq!(download_failed_text("timeout"), "Download failed: timeout");
    assert_eq!(download_fallback_text("timeout"), "Download failed (timeout) \u{2014} playing whole-surah file");
}

#[test]
fn downloader_reports() {
    assert!(matches!(start_update(3), DownloadUpdate::Progress { done: 0, total: 3, ref label } if label == "starting"));
    let (u, stop) = file_update(0, 3, "112:1", None);
    assert!(!stop);
    assert!(matches!(u, DownloadUpdate::Progress { done: 1, total: 3, ref label } if label == "112:1"));
    let (u, stop) = file_update(1, 3, "112:2", Some("404"));
    assert!(stop);
    assert!(matches!(u, DownloadUpdate::Failed(ref m) if m == "112:2 \u{2014} 404"));
    assert!(matches!(finished_update(), DownloadUpdate::Completed));
}

#[test]
fn verse_panel_follows_the_current_track() {
    let mut verses = HashMap::new();
    verses.insert(
        112u16,
        SurahVerses {
            surah: 112,
            verses: vec![Verse { ar: "a".into(), latin: "l".into(), id: "i".into() }],
        },
    );
    let mut pending = HashSet::new();
    pending.insert(113u16);
    assert!(matches!(current_verse(&verses, &pending, false, Some("112:1")), VerseView::Ready { surah: 112, ayah: 1, .. }));
    assert!(matches!(current_verse(&verses, &pending, false, Some("112:2")), VerseView::Unavailable));
    assert!(matches!(current_verse(&verses, &pending, false, Some("113:1")), VerseView::Loading));
    assert!(matches!(current_verse(&verses, &pending, false, Some("114:1")), VerseView::Unavailable));
    assert!(matches!(current_verse(&verses, &pending, false, Some("Bismillah")), VerseView::Hidden));
    assert!(matches!(current_verse(&verses, &pending, true, Some("112:1")), VerseView::Hidden));
    assert!(matches!(current_verse(&verses, &pending, false, None), VerseView::Hidden));
}

#[test]
fn now_playing_widget_text() {
    let cat = catalog();
    let s = sel("alafasy", 112, 1, 112, 4);
    let (title, artist) = now_playing_text(&cat, Some("112:3"), false, &s);
    assert_eq!((title.as_str(), artist.as_str()), ("Al-Ikhlas 3", "Mishary Alafasy"));
    let (title, artist) = now_playing_text(&cat, None, false, &sel("x", 112, 1, 112, 4));
    assert_eq!((title.as_str(), artist.as_str()), ("Al-Ikhlas", "Unknown reciter"));
}

#[test]
fn plan_checks_find_surahs_without_ayahs() {
    let mut cat = catalog();
    assert!(can_plan_selection(&cat, &sel("alafasy", 112, 1, 113, 5)));
    assert!(can_plan_playlist(&cat, &[sel("alafasy", 1, 1, 1, 7), sel("alafasy", 113, 1, 112, 4)]));
    cat.surahs.push(surah(114, "An-Nas", 0));
    assert!(!is_segmentable(&cat.surahs, 113, 114));
    assert!(is_segmentable(&cat.surahs, 112, 113));
    assert!(!can_plan_selection(&cat, &sel("alafasy", 114, 1, 114, 1)));
    // An unknown reciter plans to a refusal, so nothing needs segmenting.
    assert!(can_plan_selection(&cat, &sel("nobody", 114, 1, 114, 1)));
    assert!(!can_plan_playlist(&cat, &[sel("alafasy", 1, 1, 1, 7), sel("alafasy", 112, 1, 114, 1)]));
    assert!(can_plan_playlist(&cat, &[]));
}

#[test]
fn starting_a_playlist_loads_tracks_and_downloads_what_is_missing() {
    let cat = catalog();
    let items = vec![sel("alafasy", 112, 1, 112, 2)];
    let load = flatten_playlist(&cat, ROOT, &items);
    let tracks = load.tracks.clone();
    let labels = load.labels.clone();
    let missing_count = load.missing.len();
    assert!(missing_count > 0);
    let mut status = OutputStatus::idle();
    let (orders, missing) = start_playlist(&mut status, load, true, false, "pl-1");
    assert_eq!(orders.len(), 2);
    assert!(matches!(orders[0], EngineOrder::SetVolume));
    match &orders[1] {
        EngineOrder::Load { tracks: t, loop_enabled, autoplay } => {
            assert_eq!(t, &tracks);
            assert!(*loop_enabled);
            assert!(!*autoplay);
        }
        _ => panic!("second order must load the tracks"),
    }
    assert_eq!(missing.len(), missing_count);
    assert_eq!(status.track_labels, labels);
    assert_eq!(status.track_total, tracks.len());
    assert_eq!(status.track_index, 0);
    assert!(!status.is_fallback);
    let d = status.download.as_ref().unwrap();
    assert_eq!((d.done, d.total, d.autoplay), (0, missing_count, false));
    assert_eq!(d.playlist_id.as_deref(), Some("pl-1"));
}
