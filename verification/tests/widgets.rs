//! Tests for small display helpers.

use quran_tui::app::Tab;
use quran_tui::model::playlist::PlaylistItem;
use quran_tui::ui::now_playing::range_label;
use quran_tui::ui::transport_hint;
use quran_tui::ui::widgets::{fmt_mmss, truncate};

#[test]
fn mmss_is_zero_padded() {
    assert_eq!(fmt_mmss(0), "00:00");
    assert_eq!(fmt_mmss(65), "01:05");
    assert_eq!(fmt_mmss(3600), "60:00");
    assert_eq!(fmt_mmss(6001), "100:01");
}

#[test]
fn truncate_adds_an_ellipsis() {
    assert_eq!(truncate("Al-Baqarah", 20), "Al-Baqarah");
    assert_eq!(truncate("Al-Baqarah", 5), "Al-B\u{2026}");
    assert_eq!(truncate("abc", 0), "\u{2026}");
    assert_eq!(truncate("abc", 3), "abc");
}

#[test]
fn range_labels() {
    let one = PlaylistItem { reciter_id: "a".into(), from_surah: 18, from_ayah: 1, to_surah: 18, to_ayah: 110 };
    assert_eq!(range_label(&one), "ayah 1\u{2013}110");
    let span = PlaylistItem { reciter_id: "a".into(), from_surah: 18, from_ayah: 1, to_surah: 20, to_ayah: 30 };
    assert_eq!(range_label(&span), "18:1 \u{2013} 20:30");
}

#[test]
fn transport_hints_name_the_tab_keys() {
    assert!(transport_hint(Tab::NowPlaying).contains("Space play/pause"));
    assert!(transport_hint(Tab::Browse).contains("/ search"));
    assert!(transport_hint(Tab::Outputs).contains("+ add"));
}
