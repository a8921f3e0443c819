//! Tests for the text the UI draws.

use quran_tui::app::Tab;
use quran_tui::audio::engine::EngineState;
use quran_tui::daemon::session::{cell_position, check_hello, check_welcome, render_size, serve_step, ClientEvent};
use quran_tui::domain::catalog::{Catalog, Reciter, Surah};
use quran_tui::model::output::{DownloadProgress, OutputStatus};
use quran_tui::model::playlist::PlaylistItem;
use quran_tui::ui::browse::{availability_text, field_text, reciter_chip, reciter_name, surah_list_title, surah_row};
use quran_tui::ui::now_playing::{downloading_caption, output_card_detail, playing_surah, surah_heading, track_position};
use quran_tui::ui::playlists::{item_label, track_count_label};
use quran_tui::ui::widgets::{engine_state_chip, Tone};
use quran_tui::ui::{header_chip, tab_label, too_small_text};
use quran_tui::text::trim_whitespace;

fn catalog() -> Catalog {
    Catalog {
        surahs: vec![
            Surah {
                number: 2,
                name_transliterated: "Al-Baqarah".into(),
                name_arabic: "البقرة".into(),
                ayah_count: 286,
                revelation_place: "Medinan".into(),
            },
            Surah {
                number: 67,
                name_transliterated: "Al-Mulk".into(),
                name_arabic: "الملك".into(),
                ayah_count: 30,
                revelation_place: "Meccan".into(),
            },
        ],
        reciters: vec![Reciter {
            id: "alafasy".into(),
            display_name: "Mishary Alafasy".into(),
            file_slug: "x".into(),
            per_ayah_directory_slug: "y".into(),
        }],
    }
}

fn item(from_surah: u16, from_ayah: u16, to_surah: u16, to_ayah: u16) -> PlaylistItem {
    PlaylistItem { reciter_id: "alafasy".into(), from_surah, from_ayah, to_surah, to_ayah }
}

#[test]
fn playlist_track_labels() {
    let cat = catalog();
    assert_eq!(item_label(&cat, &item(67, 1, 67, 30)), "Al-Mulk");
    assert_eq!(item_label(&cat, &item(2, 1, 2, 20)), "Al-Baqarah \u{b7} ayah 1\u{2013}20");
    assert_eq!(item_label(&cat, &item(78, 1, 114, 6)), "Surah 78 \u{2192} Surah 114");
    assert_eq!(track_count_label(1), "1 track");
    assert_eq!(track_count_label(3), "3 tracks");
}

#[test]
fn browse_text() {
    let cat = catalog();
    assert_eq!(reciter_chip(&cat, "alafasy"), "\u{2039} Mishary Alafasy \u{203a}");
    assert_eq!(reciter_chip(&cat, "nobody"), "\u{2039} nobody \u{203a}");
    assert_eq!(surah_row(&cat.surahs[0]), format!("  {:>3}  {:<26}{:<9}{:>3} ayahs", 2, "Al-Baqarah", "Medinan", 286));
    assert_eq!(surah_list_title(114), " 114 surah(s) ");
    assert_eq!(field_text("7", true, 18), "[  7]");
    assert_eq!(field_text("7", false, 18), "[ 18]");
    assert_eq!(field_text("", true, 1000), "[1000]");
    assert_eq!(availability_text(0, 0), ("(empty range)".to_string(), Tone::Dim));
    assert_eq!(availability_text(5, 0), ("all 5 file(s) local".to_string(), Tone::Good));
    assert_eq!(availability_text(5, 2), ("3 local \u{b7} 2 to download".to_string(), Tone::Warning));
}

#[test]
fn now_playing_text() {
    let cat = catalog();
    assert_eq!(playing_surah(Some("67:3"), 2), 67);
    assert_eq!(playing_surah(Some("Bismillah"), 2), 2);
    let (h, sub) = surah_heading(&cat, 67);
    assert_eq!(h, "  \u{266a}  Al-Mulk    الملك");
    assert_eq!(sub, "     Surah 67 \u{b7} Meccan \u{b7} 30 ayahs");
    assert_eq!(surah_heading(&cat, 5), ("  \u{266a}  Surah 5".to_string(), String::new()));
    assert_eq!(track_position(0, 9), "    track 1 of 9");
    let p = DownloadProgress { done: 2, total: 9, label: "67:2".into(), autoplay: true, playlist_id: None };
    assert_eq!(downloading_caption(&p), "2 / 9   \u{b7}   67:2");
    let mut s = OutputStatus::idle();
    assert_eq!(output_card_detail(&s), "\u{2014} nothing loaded \u{2014}");
    s.load(vec!["67:1".into()], 1, false);
    assert_eq!(output_card_detail(&s), "67:1  (1/1)");
    s.download = Some(p);
    assert_eq!(output_card_detail(&s), "\u{21e3} downloading (2/9)");
}

#[test]
fn chips_and_frame_text() {
    let (icon, label, tone) = engine_state_chip(&EngineState::Error("boom".into()));
    assert_eq!((icon, label.as_str(), tone), ("\u{2716}", "Error: boom", Tone::Error));
    let (icon, label, tone) = engine_state_chip(&EngineState::Playing);
    assert_eq!((icon, label.as_str(), tone), ("\u{25b6}", "Playing", Tone::Good));
    assert_eq!(header_chip(2, 1), "\u{266a} 2 output(s) \u{b7} 1 playing ");
    assert_eq!(tab_label(Tab::Outputs), " 3 Outputs ");
    assert_eq!(too_small_text(), "Terminal too small (need 80x24)");
}

#[test]
fn daemon_handshake_and_serving() {
    assert!(check_hello(1).is_ok());
    assert_eq!(check_hello(2), Err("client proto 2 \u{2260} daemon proto 1".to_string()));
    assert_eq!(
        check_welcome(3),
        Err("daemon protocol 3 \u{2260} client protocol 1; run `quran-tui --stop` and retry".to_string())
    );
    assert_eq!(render_size(0, 30), (1, 30));
    let step = serve_step(ClientEvent::Resize { w: 100, h: 30 });
    assert_eq!(step.resize, Some((100, 30)));
    assert!(step.keep_draining);
    let step = serve_step(ClientEvent::Disconnected);
    assert!(step.detach && !step.keep_draining && !step.shutdown);
    assert!(serve_step(ClientEvent::Shutdown).shutdown);
    assert!(serve_step(ClientEvent::Key).handle_key);
    assert_eq!(cell_position(0, 0, 80, 81), (1, 1));
    assert_eq!(cell_position(2, 3, 10, 25), (7, 5));
}

#[test]
fn trimming_removes_unicode_white_space_like_str_trim() {
    for s in ["  Juz Amma \t", "\u{3000}\u{a0}Morning\u{2009}", "plain", "", " \n ", "a b"] {
        assert_eq!(trim_whitespace(s), s.trim());
    }
}

#[test]
fn reciter_name_is_the_display_name_or_the_id() {
    let cat = Catalog {
        surahs: Vec::new(),
        reciters: vec![Reciter {
            id: "alafasy".into(),
            display_name: "\u{2039} Mishary \u{203a}".into(),
            file_slug: "mishary-alafasy".into(),
            per_ayah_directory_slug: "Alafasy_64kbps".into(),
        }],
    };
    assert_eq!(reciter_name(&cat, "alafasy"), "\u{2039} Mishary \u{203a}");
    assert_eq!(reciter_name(&cat, "unknown"), "unknown");
}
