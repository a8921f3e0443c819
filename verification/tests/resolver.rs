//! Tests for content resolution. The audio fixture directory is described by
//! the list of files it holds: every per-ayah file of surah 18, the bismillah
//! clip, and the whole-surah file of surah 1.

use quran_tui::content::resolver::{self, Resolution};
use quran_tui::domain::catalog::{Catalog, Reciter, Surah};
use quran_tui::domain::segment::playback_segments;

fn surah(number: u16, name: &str, ayah_count: u16) -> Surah {
    Surah {
        number,
        name_transliterated: name.to_string(),
        name_arabic: String::new(),
        ayah_count,
        revelation_place: "Meccan".into(),
    }
}

fn catalog() -> Catalog {
    Catalog {
        surahs: vec![
            surah(1, "Al-Fatihah", 7),
            surah(9, "At-Tawbah", 129),
            surah(18, "Al-Kahf", 110),
            surah(50, "Qaf", 45),
            surah(112, "Al-Ikhlas", 4),
        ],
        reciters: vec![Reciter {
            id: "alafasy".into(),
            display_name: "Mishary Alafasy".into(),
            file_slug: "mishary-alafasy".into(),
            per_ayah_directory_slug: "Alafasy_64kbps".into(),
        }],
    }
}

const ASSETS: &str = "/assets";

/// The files of the audio fixture directory.
fn fixture_files(catalog: &Catalog) -> Vec<String> {
    let reciter = catalog.reciter("alafasy").unwrap();
    let mut files: Vec<String> = (1..=110)
        .map(|ayah| resolver::per_ayah_local_path(reciter, 18, ayah, ASSETS))
        .collect();
    files.push(resolver::bismillah_local_path(reciter, ASSETS));
    files.push(format!("{ASSETS}/001-al-fatihah-mishary-alafasy.mp3"));
    files
}

#[test]
fn surah_18_full_range_resolves_to_local_per_ayah() {
    let catalog = catalog();
    let reciter = catalog.reciter("alafasy").unwrap();
    let count = catalog.surah(18).unwrap().ayah_count;
    let segments = playback_segments(&catalog.surahs, 18, 18, 1, count);

    match resolver::resolve_among(&segments, reciter, ASSETS, &fixture_files(&catalog)) {
        // 110 ayah files + 1 prepended bismillah
        Resolution::Local(paths) => assert_eq!(paths.len(), 111),
        other => panic!("expected Local, got {other:?}"),
    }
}

#[test]
fn surah_18_subrange_resolves_without_bismillah() {
    let catalog = catalog();
    let reciter = catalog.reciter("alafasy").unwrap();
    let segments = playback_segments(&catalog.surahs, 18, 18, 5, 10);

    match resolver::resolve_among(&segments, reciter, ASSETS, &fixture_files(&catalog)) {
        Resolution::Local(paths) => assert_eq!(paths.len(), 6),
        other => panic!("expected Local, got {other:?}"),
    }
}

#[test]
fn surah_1_falls_back_to_the_whole_surah_file() {
    let catalog = catalog();
    let reciter = catalog.reciter("alafasy").unwrap();
    let count = catalog.surah(1).unwrap().ayah_count;
    let segments = playback_segments(&catalog.surahs, 1, 1, 1, count);

    match resolver::resolve_among(&segments, reciter, ASSETS, &fixture_files(&catalog)) {
        Resolution::WholeSurahFallback(path) => {
            assert!(path.ends_with("001-al-fatihah-mishary-alafasy.mp3"));
        }
        other => panic!("expected WholeSurahFallback, got {other:?}"),
    }
}

#[test]
fn absent_surah_reports_missing_count() {
    let catalog = catalog();
    let reciter = catalog.reciter("alafasy").unwrap();
    // Surah 50, ayahs 5..=10 — no local files, no bismillah (range start != 1).
    let segments = playback_segments(&catalog.surahs, 50, 50, 5, 10);

    match resolver::resolve(&segments, reciter, "/nonexistent-quran-audio-root") {
        Resolution::Missing { count } => assert_eq!(count, 6),
        other => panic!("expected Missing, got {other:?}"),
    }
}

#[test]
fn bismillah_prepend_rule() {
    let catalog = catalog();

    let s18 = playback_segments(&catalog.surahs, 18, 18, 1, 10);
    assert!(resolver::should_prepend_bismillah(&s18[0]));

    // Al-Fatihah already contains the basmala.
    let s1 = playback_segments(&catalog.surahs, 1, 1, 1, 7);
    assert!(!resolver::should_prepend_bismillah(&s1[0]));

    // At-Tawbah has no basmala.
    let s9 = playback_segments(&catalog.surahs, 9, 9, 1, 10);
    assert!(!resolver::should_prepend_bismillah(&s9[0]));

    // Range that does not start at ayah 1.
    let s18b = playback_segments(&catalog.surahs, 18, 18, 5, 10);
    assert!(!resolver::should_prepend_bismillah(&s18b[0]));
}

#[test]
fn path_builders_match_conventions() {
    let catalog = catalog();
    let reciter = catalog.reciter("alafasy").unwrap();
    let surah18 = catalog.surah(18).unwrap();
    let root = "/audio";

    assert!(resolver::per_ayah_local_path(reciter, 18, 5, root).ends_with("Alafasy_64kbps/018/005.mp3"));
    assert!(resolver::whole_surah_local_path(surah18, reciter, root)
        .ends_with("018-al-kahf-mishary-alafasy.mp3"));
    assert!(resolver::bismillah_local_path(reciter, root).ends_with("Alafasy_64kbps/001/001.mp3"));

    assert_eq!(
        resolver::per_ayah_remote_url(reciter, 18, 5),
        "https://everyayah.com/data/Alafasy_64kbps/018005.mp3"
    );
    assert_eq!(
        resolver::bismillah_remote_url(reciter),
        "https://everyayah.com/data/Alafasy_64kbps/001001.mp3"
    );
}

#[test]
fn per_ayah_labels_track_the_playlist_order() {
    let catalog = catalog();
    let segments = playback_segments(&catalog.surahs, 18, 18, 1, 3);
    let labels = resolver::per_ayah_labels(&segments);
    assert_eq!(labels, vec!["Bismillah", "18:1", "18:2", "18:3"]);
}

#[test]
fn paths_join_like_path_join() {
    assert_eq!(resolver::join("/audio", "x"), "/audio/x");
    assert_eq!(resolver::join("/audio/", "x"), "/audio/x");
    assert_eq!(resolver::join("", "x"), "x");
    assert_eq!(resolver::join("/audio", "/abs"), "/abs");
    let reciter = Reciter {
        id: "r".into(),
        display_name: "R".into(),
        file_slug: "r".into(),
        per_ayah_directory_slug: "R_dir".into(),
    };
    assert_eq!(
        resolver::per_ayah_local_path(&reciter, 2, 255, "/a"),
        "/a/R_dir/002/255.mp3"
    );
    assert_eq!(
        resolver::per_ayah_local_path(&reciter, 1000, 7, "/a"),
        "/a/R_dir/1000/007.mp3"
    );
}

#[test]
fn missing_files_are_deduplicated_and_labelled() {
    let catalog = catalog();
    let reciter = catalog.reciter("alafasy").unwrap();
    // Two segments each starting at ayah 1 both need the bismillah clip; it is
    // reported once.
    let segments = playback_segments(&catalog.surahs, 18, 50, 1, 2);
    let existing = fixture_files(&catalog);
    let missing = resolver::missing_files_among(&segments, reciter, ASSETS, &existing);
    let labels: Vec<&str> = missing.iter().map(|m| m.label.as_str()).collect();
    assert_eq!(labels, vec!["50:1", "50:2"]);

    let missing = resolver::missing_files_among(&segments, reciter, ASSETS, &[]);
    assert_eq!(missing[0].label, "bismillah");
    assert_eq!(missing[0].remote_url, "https://everyayah.com/data/Alafasy_64kbps/001001.mp3");
    let bismillahs = missing.iter().filter(|m| m.label == "bismillah").count();
    assert_eq!(bismillahs, 1);
    assert_eq!(missing.len(), 1 + 110 + 2);
}

#[test]
fn empty_request_resolves_to_nothing_missing() {
    let catalog = catalog();
    let reciter = catalog.reciter("alafasy").unwrap();
    assert_eq!(resolver::resolve(&[], reciter, ASSETS), Resolution::Missing { count: 0 });
}

#[test]
fn each_label_names_the_file_at_its_position() {
    let catalog = catalog();
    let reciter = &catalog.reciters[0];
    let segments = playback_segments(&catalog.surahs, 112, 18, 109, 2);
    let labels = resolver::per_ayah_labels(&segments);
    let paths = resolver::per_ayah_paths(&segments, reciter, ASSETS);
    assert_eq!(labels.len(), paths.len());
    for (label, path) in labels.iter().zip(paths.iter()) {
        if label == "Bismillah" {
            assert_eq!(path, &resolver::bismillah_local_path(reciter, ASSETS));
        } else {
            let (surah, ayah) = label.split_once(':').unwrap();
            let expected = resolver::per_ayah_local_path(reciter, surah.parse().unwrap(), ayah.parse().unwrap(), ASSETS);
            assert_eq!(path, &expected);
        }
    }
}
