//! Playlists tab text: how a track is named, how many tracks a playlist has,
//! and the footer hint for the focused pane.

use vstd::prelude::*;

use crate::app::PlaylistPane;
use crate::domain::catalog::{first_surah, Catalog};
use crate::model::playlist::PlaylistItem;
use crate::text::{decimal, push_decimal};

verus! {

/// Name of surah `n`: its transliterated catalog name, or `"Surah <n>"`.
pub open spec fn surah_name_spec(surahs: Seq<crate::domain::catalog::Surah>, n: u16) -> Seq<char> {
    match first_surah(surahs, n) {
        Some(s) => s.name_transliterated@,
        None => "Surah "@ + decimal(n as nat),
    }
}

/// How a playlist track reads: the surah name when it covers a whole surah,
/// `"<name> · ayah <a>–<b>"` for part of one surah, `"<first> → <last>"` for a
/// span of surahs.
pub open spec fn item_label_spec(surahs: Seq<crate::domain::catalog::Surah>, item: PlaylistItem) -> Seq<char> {
    if item.from_surah == item.to_surah {
        let full = match first_surah(surahs, item.from_surah) {
            Some(s) => item.from_ayah <= 1 && item.to_ayah >= s.ayah_count,
            None => false,
        };
        if full {
            surah_name_spec(surahs, item.from_surah)
        } else {
            surah_name_spec(surahs, item.from_surah) + " \u{b7} ayah "@ + decimal(item.from_ayah as nat)
                + "\u{2013}"@ + decimal(item.to_ayah as nat)
        }
    } else {
        surah_name_spec(surahs, item.from_surah) + " \u{2192} "@ + surah_name_spec(surahs, item.to_surah)
    }
}

/// Name of surah `n`.
fn surah_name(catalog: &Catalog, n: u16) -> (r: String)
    ensures
        r@ == surah_name_spec(catalog.surahs@, n),
{
    match catalog.surah(n) {
        Some(s) => s.name_transliterated.clone(),
        None => {
            let mut t = String::from_str("Surah ");
            push_decimal(&mut t, n as u64);
            t
        },
    }
}

/// Human-readable label for one playlist track, e.g. `Al-Mulk`,
/// `Al-Baqarah · ayah 1–20`, or `An-Naba → An-Nas`.
pub fn item_label(catalog: &Catalog, item: &PlaylistItem) -> (r: String)
    ensures
        r@ == item_label_spec(catalog.surahs@, *item),
{
    if item.from_surah == item.to_surah {
        let full = match catalog.surah(item.from_surah) {
            Some(s) => item.from_ayah <= 1 && item.to_ayah >= s.ayah_count,
            None => false,
        };
        if full {
            surah_name(catalog, item.from_surah)
        } else {
            let mut t = surah_name(catalog, item.from_surah);
            t.append(" \u{b7} ayah ");
            push_decimal(&mut t, item.from_ayah as u64);
            t.append("\u{2013}");
            push_decimal(&mut t, item.to_ayah as u64);
            t
        }
    } else {
        let mut t = surah_name(catalog, item.from_surah);
        t.append(" \u{2192} ");
        let last = surah_name(catalog, item.to_surah);
        t.append(last.as_str());
        t
    }
}

/// `"1 track"`, `"<n> tracks"`.
pub fn track_count_label(count: usize) -> (r: String)
    ensures
        r@ == decimal(count as nat) + (if count == 1 { " track"@ } else { " tracks"@ }),
{
    let mut t = String::new();
    push_decimal(&mut t, count as u64);
    if count == 1 {
        t.append(" track");
    } else {
        t.append(" tracks");
    }
    t
}

/// The footer hint for the focused Playlists pane.
pub fn footer_hint(pane: PlaylistPane) -> (r: &'static str)
    ensures
        r@ == match pane {
            PlaylistPane::Playlists => "  [Enter] play   [n] new   [r] rename   [d] delete   [a] add tracks   [Tab] tracks"@,
            PlaylistPane::Items => "  [Enter] play   [d] remove track   [a] add more   [Tab] playlists   \u{2191}/\u{2193} select"@,
        },
{
    match pane {
        PlaylistPane::Playlists => "  [Enter] play   [n] new   [r] rename   [d] delete   [a] add tracks   [Tab] tracks",
        PlaylistPane::Items => "  [Enter] play   [d] remove track   [a] add more   [Tab] playlists   \u{2191}/\u{2193} select",
    }
}

} // verus!
