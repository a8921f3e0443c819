//! Tests for output-device naming heuristics and merging.

use quran_tui::audio::device::{looks_like_bluetooth, push_unique, AudioDevice};

fn dev(name: &str, is_default: bool, bt_hint: bool) -> AudioDevice {
    AudioDevice { name: name.into(), is_default, bt_hint }
}

#[test]
fn bluetooth_names_are_recognised() {
    assert!(looks_like_bluetooth("Ahmad's AirPods Pro"));
    assert!(looks_like_bluetooth("Sony WH-1000XM4"));
    assert!(looks_like_bluetooth("JBL Flip 5"));
    assert!(!looks_like_bluetooth("MacBook Pro Speakers"));
    assert!(!looks_like_bluetooth(""));
}

#[test]
fn push_unique_merges_flags_by_name() {
    let mut devices = vec![dev("Speakers", false, false)];
    push_unique(&mut devices, dev("Headphones", false, true));
    assert_eq!(devices.len(), 2);
    push_unique(&mut devices, dev("Speakers", true, false));
    assert_eq!(devices, vec![dev("Speakers", true, false), dev("Headphones", false, true)]);
}
