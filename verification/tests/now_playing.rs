//! Tests for the Now Playing text helpers.

use quran_tui::model::playlist::PlaylistItem;
use quran_tui::ui::now_playing::{range_label, reverse_rtl};
use quran_tui::ui::widgets::{fmt_mmss, truncate};

#[test]
fn reverse_rtl_reverses_word_order() {
    assert_eq!(reverse_rtl("satu dua tiga"), "tiga dua satu");
}

#[test]
fn reverse_rtl_leaves_letters_within_a_word_untouched() {
    assert_eq!(reverse_rtl("abc def"), "def abc");
}

#[test]
fn reverse_rtl_handles_a_single_word() {
    assert_eq!(reverse_rtl("abc"), "abc");
}

#[test]
fn reverse_rtl_twice_restores_the_text() {
    for text in ["satu dua tiga", "a  b", " lead", "trail ", ""] {
        assert_eq!(reverse_rtl(&reverse_rtl(text)), text);
    }
    assert_eq!(reverse_rtl("a  b"), "b  a");
}

fn selection(from_surah: u16, from_ayah: u16, to_surah: u16, to_ayah: u16) -> PlaylistItem {
    PlaylistItem {
        reciter_id: "alafasy".into(),
        from_surah,
        from_ayah,
        to_surah,
        to_ayah,
    }
}

#[test]
fn range_label_for_one_surah_and_for_a_span() {
    assert_eq!(range_label(&selection(18, 1, 18, 110)), "ayah 1\u{2013}110");
    assert_eq!(range_label(&selection(18, 1, 20, 30)), "18:1 \u{2013} 20:30");
}

#[test]
fn fmt_mmss_pads_minutes_and_seconds() {
    assert_eq!(fmt_mmss(0), "00:00");
    assert_eq!(fmt_mmss(65), "01:05");
    assert_eq!(fmt_mmss(3599), "59:59");
    assert_eq!(fmt_mmss(6000), "100:00");
}

#[test]
fn truncate_appends_an_ellipsis_only_when_shortened() {
    assert_eq!(truncate("hello", 5), "hello");
    assert_eq!(truncate("hello", 4), "hel\u{2026}");
    assert_eq!(truncate("hello", 0), "\u{2026}");
    assert!(truncate("a much longer line", 6).chars().count() <= 6);
}
