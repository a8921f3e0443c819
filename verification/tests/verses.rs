//! Tests for verse lookup and the verse cache path.

use quran_tui::content::verses::cache_path;
use quran_tui::domain::verses::{SurahVerses, Verse};

fn sample() -> SurahVerses {
    let verse = |s: &str| Verse {
        ar: format!("ar-{s}"),
        latin: format!("latin-{s}"),
        id: format!("id-{s}"),
    };
    SurahVerses {
        surah: 112,
        verses: vec![verse("1"), verse("2")],
    }
}

#[test]
fn ayah_lookup_is_one_based() {
    let sv = sample();
    assert_eq!(sv.ayah(1).unwrap().ar, "ar-1");
    assert_eq!(sv.ayah(2).unwrap().id, "id-2");
}

#[test]
fn ayah_zero_and_out_of_range_are_none() {
    let sv = sample();
    assert!(sv.ayah(0).is_none());
    assert!(sv.ayah(3).is_none());
}

#[test]
fn cache_path_is_zero_padded() {
    let dir = "/tmp/verses";
    assert_eq!(cache_path(dir, 1), "/tmp/verses/001.json");
    assert_eq!(cache_path(dir, 112), "/tmp/verses/112.json");
}
