//! Tests for the application-state decisions: track labels, tab and field
//! cycling, range clamping, reciter cycling, restored settings and titles.

use quran_tui::app::{
    adjust_numeric_field, apply_surah_selection, clamp_selection, commit_edit_buffer, cycle_reciter,
    filtered_surahs, format_default_title, format_track_title, parse_track_ref, restore_config,
    set_numeric_field, step_cursor, BrowseField, OutputsFocus, PlaylistPane, Tab,
};
use quran_tui::config::AppConfig;
use std::collections::{HashMap, HashSet};
use quran_tui::domain::catalog::{Catalog, Reciter, Surah};
use quran_tui::model::playlist::PlaylistItem;

fn surah(number: u16, name: &str, ayah_count: u16) -> Surah {
    Surah {
        number,
        name_transliterated: name.to_string(),
        name_arabic: String::new(),
        ayah_count,
        revelation_place: "Meccan".into(),
    }
}

fn reciter(id: &str) -> Reciter {
    Reciter {
        id: id.to_string(),
        display_name: id.to_string(),
        file_slug: id.to_string(),
        per_ayah_directory_slug: format!("{id}_64kbps"),
    }
}

/// A catalog with every surah number 1..=114; a few carry real names and
/// ayah counts, the rest are named "Surah N" with 10 ayahs.
fn catalog() -> Catalog {
    let mut surahs = Vec::new();
    for n in 1..=114u16 {
        let s = match n {
            1 => surah(1, "Al-Fatihah", 7),
            2 => surah(2, "Al-Baqarah", 286),
            18 => surah(18, "Al-Kahf", 110),
            67 => surah(67, "Al-Mulk", 30),
            112 => surah(112, "Al-Ikhlas", 4),
            _ => surah(n, &format!("Surah {n}"), 10),
        };
        surahs.push(s);
    }
    Catalog {
        surahs,
        reciters: vec![reciter("alafasy"), reciter("husary"), reciter("minshawi")],
    }
}

fn selection(from_surah: u16, from_ayah: u16, to_surah: u16, to_ayah: u16) -> PlaylistItem {
    PlaylistItem {
        reciter_id: "alafasy".into(),
        from_surah,
        from_ayah,
        to_surah,
        to_ayah,
    }
}

#[test]
fn track_ref_parsing() {
    assert_eq!(parse_track_ref("18:5"), Some((18, 5)));
    assert_eq!(parse_track_ref("112:1"), Some((112, 1)));
    assert_eq!(parse_track_ref("Bismillah"), None);
    assert_eq!(parse_track_ref("18:"), None);
    assert_eq!(parse_track_ref("18:x"), None);
}

#[test]
fn track_ref_rejects_out_of_range_numbers() {
    assert_eq!(parse_track_ref("70000:1"), None);
    assert_eq!(parse_track_ref("1:2:3"), None);
    assert_eq!(parse_track_ref("+7:3"), Some((7, 3)));
    assert_eq!(parse_track_ref(":5"), None);
}

#[test]
fn tab_titles_and_cycling() {
    assert_eq!(Tab::ALL.len(), 4);
    assert_eq!(Tab::NowPlaying.title(), "Now Playing");
    assert_eq!(Tab::Playlists.title(), "Playlists");
    assert_eq!(Tab::Outputs.index(), 2);
    assert_eq!(Tab::NowPlaying.cycle(1), Tab::Browse);
    assert_eq!(Tab::NowPlaying.cycle(-1), Tab::Playlists);
    assert_eq!(Tab::Browse.cycle(6), Tab::Playlists);
    assert_eq!(Tab::Browse.cycle(6).cycle(-6), Tab::Browse);
}

#[test]
fn browse_fields_cycle_and_wrap() {
    assert_eq!(BrowseField::SurahList.cycle(1), BrowseField::FromSurah);
    assert_eq!(BrowseField::FromSurah.cycle(1), BrowseField::FromAyah);
    assert_eq!(BrowseField::ToAyah.cycle(1), BrowseField::SurahList);
    assert_eq!(BrowseField::SurahList.cycle(-1), BrowseField::ToAyah);
    assert!(!BrowseField::SurahList.is_numeric());
    assert!(BrowseField::ToSurah.is_numeric());
}

#[test]
fn focus_toggles_flip() {
    assert_eq!(OutputsFocus::Channels.toggled(), OutputsFocus::Devices);
    assert_eq!(OutputsFocus::Devices.toggled(), OutputsFocus::Channels);
    assert_eq!(PlaylistPane::Playlists.toggled(), PlaylistPane::Items);
    assert_eq!(PlaylistPane::Items.toggled(), PlaylistPane::Playlists);
}

#[test]
fn cursor_steps_are_clamped() {
    assert_eq!(step_cursor(0, -1, 5), 0);
    assert_eq!(step_cursor(2, 1, 5), 3);
    assert_eq!(step_cursor(4, 1, 5), 4);
    assert_eq!(step_cursor(1, 10, 5), 4);
}

#[test]
fn search_then_select_picks_the_whole_surah() {
    let cat = catalog();
    let hits = filtered_surahs(&cat, Some("KAHF"));
    assert_eq!(hits.len(), 1);
    assert_eq!(hits[0].number, 18);
    let mut sel = selection(1, 1, 1, 7);
    apply_surah_selection(&mut sel, hits[0]);
    assert_eq!((sel.from_surah, sel.from_ayah, sel.to_surah, sel.to_ayah), (18, 1, 18, 110));
}

#[test]
fn search_matches_numbers_too() {
    let cat = catalog();
    let hits: Vec<u16> = filtered_surahs(&cat, Some("112")).iter().map(|s| s.number).collect();
    assert_eq!(hits, vec![112]);
    assert_eq!(filtered_surahs(&cat, None).len(), 114);
}

#[test]
fn numeric_edits_are_clamped_to_the_surah() {
    let cat = catalog();
    let mut sel = selection(1, 1, 1, 7);
    commit_edit_buffer(&cat, &mut sel, BrowseField::FromAyah, "99");
    // Al-Fatihah has 7 ayahs, so 99 clamps to 7.
    assert_eq!(sel.from_ayah, 7);
    commit_edit_buffer(&cat, &mut sel, BrowseField::FromAyah, "abc");
    assert_eq!(sel.from_ayah, 7);
    commit_edit_buffer(&cat, &mut sel, BrowseField::SurahList, "3");
    assert_eq!(sel, selection(1, 7, 1, 7));
}

#[test]
fn set_and_adjust_numeric_fields() {
    let cat = catalog();
    let mut sel = selection(18, 1, 18, 110);
    set_numeric_field(&cat, &mut sel, BrowseField::ToSurah, 500);
    assert_eq!(sel.to_surah, 114);
    assert_eq!(sel.to_ayah, 10);
    adjust_numeric_field(&cat, &mut sel, BrowseField::FromAyah, -5);
    assert_eq!(sel.from_ayah, 1);
    adjust_numeric_field(&cat, &mut sel, BrowseField::FromAyah, 4);
    assert_eq!(sel.from_ayah, 5);
    let before = sel.clone();
    adjust_numeric_field(&cat, &mut sel, BrowseField::SurahList, 3);
    assert_eq!(sel, before);
}

#[test]
fn clamp_selection_fixes_every_bound() {
    let cat = catalog();
    let mut sel = selection(0, 0, 200, 999);
    clamp_selection(&cat, &mut sel);
    assert_eq!(sel, selection(1, 1, 114, 10));
    let once = sel.clone();
    clamp_selection(&cat, &mut sel);
    assert_eq!(sel, once);
}

#[test]
fn reciter_cycles_and_wraps() {
    let cat = catalog();
    let mut sel = selection(1, 1, 1, 7);
    cycle_reciter(&cat, &mut sel, 1);
    assert_eq!(sel.reciter_id, "husary");
    cycle_reciter(&cat, &mut sel, -2);
    assert_eq!(sel.reciter_id, "minshawi");
    sel.reciter_id = "unknown".into();
    cycle_reciter(&cat, &mut sel, 1);
    assert_eq!(sel.reciter_id, "husary");
}

#[test]
fn restored_settings_fall_back_sensibly() {
    let cat = catalog();
    let cfg = AppConfig {
        audio_root: "/audio".into(),
        last_reciter_id: "husary".into(),
        last_surah: 18,
    };
    assert_eq!(restore_config(&cat, &cfg), PlaylistItem {
        reciter_id: "husary".into(),
        from_surah: 18,
        from_ayah: 1,
        to_surah: 18,
        to_ayah: 110,
    });
    let cfg = AppConfig {
        audio_root: "/audio".into(),
        last_reciter_id: "nobody".into(),
        last_surah: 0,
    };
    let sel = restore_config(&cat, &cfg);
    assert_eq!(sel.reciter_id, "alafasy");
    assert_eq!((sel.from_surah, sel.to_ayah), (1, 7));
    let empty = Catalog { surahs: vec![], reciters: vec![] };
    let sel = restore_config(&empty, &cfg);
    assert_eq!(sel, PlaylistItem { reciter_id: String::new(), from_surah: 1, from_ayah: 1, to_surah: 1, to_ayah: 7 });
}

#[test]
fn titles_describe_the_selection() {
    let cat = catalog();
    assert_eq!(format_default_title(&cat, &selection(18, 1, 18, 110)), "Al-Kahf");
    assert_eq!(format_default_title(&cat, &selection(18, 5, 18, 20)), "Al-Kahf 5\u{2013}20");
    assert_eq!(format_default_title(&cat, &selection(1, 1, 2, 5)), "Al-Fatihah \u{2026}");
    assert_eq!(format_default_title(&cat, &selection(200, 1, 200, 1)), "Quran TUI");
    let sel = selection(18, 1, 18, 110);
    assert_eq!(format_track_title(&cat, "18:5", false, &sel), "Al-Kahf 5");
    assert_eq!(format_track_title(&cat, "Bismillah", false, &sel), "Bismillah");
    assert_eq!(format_track_title(&cat, "Al-Kahf (full surah)", true, &sel), "Al-Kahf (full)");
    assert_eq!(format_track_title(&cat, "300:1", false, &sel), "300:1");
}

#[test]
fn config_fallback_and_override() {
    let cfg = AppConfig::fallback("/home/u/quran".into());
    assert_eq!(cfg.last_reciter_id, "alafasy");
    assert_eq!(cfg.last_surah, 1);
    let cfg = cfg.with_audio_dir(Some("/mnt/audio".into()));
    assert_eq!(cfg.audio_root, "/mnt/audio");
    let cfg = cfg.with_audio_dir(None);
    assert_eq!(cfg.audio_root, "/mnt/audio");
}

fn segment(number: u16, from: u16, to: u16) -> quran_tui::domain::segment::PlaybackSegment {
    quran_tui::domain::segment::PlaybackSegment {
        surah: surah(number, &format!("Surah {number}"), 10),
        range: from..=to,
    }
}

fn verses_of(number: u16) -> quran_tui::domain::verses::SurahVerses {
    quran_tui::domain::verses::SurahVerses { surah: number, verses: Vec::new() }
}

#[test]
fn verse_fetches_skip_loaded_pending_and_repeated_surahs() {
    let segments = vec![segment(2, 1, 5), segment(3, 1, 10), segment(2, 6, 9), segment(4, 1, 3), segment(5, 1, 2)];
    let mut loaded = HashMap::new();
    loaded.insert(3u16, verses_of(3));
    let mut pending = HashSet::new();
    pending.insert(5u16);
    let fetch = quran_tui::app::surahs_to_fetch(&segments, &loaded, &mut pending);
    assert_eq!(fetch, vec![2, 4]);
    assert_eq!(pending, HashSet::from([2u16, 4, 5]));
    // Asking again finds nothing new.
    let again = quran_tui::app::surahs_to_fetch(&segments, &loaded, &mut pending);
    assert!(again.is_empty());
}

#[test]
fn recorded_verse_fetch_clears_pending_and_stores_success() {
    let mut loaded = HashMap::new();
    let mut pending = HashSet::from([7u16, 8]);
    let err = quran_tui::app::record_verses(&mut loaded, &mut pending, 7, Ok(verses_of(7)));
    assert!(err.is_none());
    assert!(loaded.contains_key(&7));
    assert_eq!(pending, HashSet::from([8u16]));

    let err = quran_tui::app::record_verses(&mut loaded, &mut pending, 8, Err("offline".to_string()));
    assert_eq!(err, Some("offline".to_string()));
    assert!(!loaded.contains_key(&8));
    assert!(pending.is_empty());
}

#[test]
fn search_ignores_ascii_case() {
    let cat = catalog();
    let found: Vec<u16> = filtered_surahs(&cat, Some("kAhF")).iter().map(|s| s.number).collect();
    assert_eq!(found, vec![18]);
}
