//! Browse tab text: the reciter chip, a surah row, the range fields, and how
//! many of the selection's files are already local.

use vstd::prelude::*;

use crate::content::resolver::{
    files_of, files_view, labels_of, missing_among, missing_files, observed_on_disk, paths_of, per_ayah_labels,
};
use crate::domain::catalog::{first_reciter, Catalog, Surah};
use crate::domain::segment::{matches_spec, playback_segments, segmentable};
use crate::model::playlist::PlaylistItem;
use crate::playback::{item_files, item_labels, item_paths, item_plan, lemma_realized, realized};
use crate::text::{decimal, decimal_string};
use crate::ui::widgets::{pad_left_spec, pad_right_spec, push_padded_left, push_padded_right, Tone};

verus! {

/// The reciter's display name, or its id when the catalog lacks it.
pub open spec fn reciter_name_spec(reciters: Seq<crate::domain::catalog::Reciter>, id: Seq<char>) -> Seq<char> {
    match first_reciter(reciters, id) {
        Some(r) => r.display_name@,
        None => id,
    }
}

/// The reciter's display name, or its id when the catalog lacks it.
pub fn reciter_name(catalog: &Catalog, id: &str) -> (r: String)
    ensures
        r@ == reciter_name_spec(catalog.reciters@, id@),
{
    match catalog.reciter(id) {
        Some(rc) => rc.display_name.clone(),
        None => String::from_str(id),
    }
}

/// `"‹ <reciter name> ›"`.
pub fn reciter_chip(catalog: &Catalog, id: &str) -> (r: String)
    ensures
        r@ == "\u{2039} "@ + reciter_name_spec(catalog.reciters@, id@) + " \u{203a}"@,
{
    let mut t = String::from_str("\u{2039} ");
    match catalog.reciter(id) {
        Some(rc) => t.append(rc.display_name.as_str()),
        None => t.append(id),
    }
    t.append(" \u{203a}");
    t
}

/// One row of the surah list: number, name, place and ayah count in columns.
pub fn surah_row(s: &Surah) -> (r: String)
    ensures
        r@ == "  "@ + pad_left_spec(decimal(s.number as nat), 3) + "  "@ + pad_right_spec(
            s.name_transliterated@,
            26,
        ) + pad_right_spec(s.revelation_place@, 9) + pad_left_spec(decimal(s.ayah_count as nat), 3)
            + " ayahs"@,
{
    let mut t = String::from_str("  ");
    let number = decimal_string(s.number as u64);
    push_padded_left(&mut t, number.as_str(), 3);
    t.append("  ");
    push_padded_right(&mut t, s.name_transliterated.as_str(), 26);
    push_padded_right(&mut t, s.revelation_place.as_str(), 9);
    let count = decimal_string(s.ayah_count as u64);
    push_padded_left(&mut t, count.as_str(), 3);
    t.append(" ayahs");
    t
}

/// `" <n> surah(s) "`, the surah list's title.
pub fn surah_list_title(count: usize) -> (r: String)
    ensures
        r@ == " "@ + decimal(count as nat) + " surah(s) "@,
{
    let mut t = String::from_str(" ");
    crate::text::push_decimal(&mut t, count as u64);
    t.append(" surah(s) ");
    t
}

/// `"search: <query>"`.
pub fn search_label(query: &str) -> (r: String)
    ensures
        r@ == "search: "@ + query@,
{
    let mut t = String::from_str("search: ");
    t.append(query);
    t
}

/// A numeric range field: the typed digits while it is focused and holds
/// some, else its value, right-aligned in three columns within brackets.
pub fn field_text(buffer: &str, focused: bool, value: u16) -> (r: String)
    ensures
        r@ == "["@ + pad_left_spec(if focused && buffer@.len() > 0 { buffer@ } else { decimal(value as nat) }, 3)
            + "]"@,
{
    let mut t = String::from_str("[");
    if focused && buffer.unicode_len() > 0 {
        push_padded_left(&mut t, buffer, 3);
    } else {
        let v = decimal_string(value as u64);
        push_padded_left(&mut t, v.as_str(), 3);
    }
    t.append("]");
    t
}

/// How a selection's availability reads, given its `total` tracks and how
/// many are `missing`: `"(empty range)"`, `"all <n> file(s) local"`, or
/// `"<local> local · <missing> to download"`.
pub open spec fn availability_spec(total: nat, missing: nat) -> (Seq<char>, Tone) {
    let local: nat = if total >= missing { (total - missing) as nat } else { 0 };
    if total == 0 {
        ("(empty range)"@, Tone::Dim)
    } else if missing == 0 {
        ("all "@ + decimal(local) + " file(s) local"@, Tone::Good)
    } else {
        (decimal(local) + " local \u{b7} "@ + decimal(missing) + " to download"@, Tone::Warning)
    }
}

/// The text for `total` tracks of which `missing` are not on disk.
pub fn availability_text(total: usize, missing: usize) -> (r: (String, Tone))
    ensures
        r.0@ == availability_spec(total as nat, missing as nat).0,
        r.1 == availability_spec(total as nat, missing as nat).1,
{
    let local: usize = if total >= missing {
        total - missing
    } else {
        0
    };
    if total == 0 {
        (String::from_str("(empty range)"), Tone::Dim)
    } else if missing == 0 {
        let mut t = String::from_str("all ");
        crate::text::push_decimal(&mut t, local as u64);
        t.append(" file(s) local");
        (t, Tone::Good)
    } else {
        let mut t = String::new();
        crate::text::push_decimal(&mut t, local as u64);
        t.append(" local \u{b7} ");
        crate::text::push_decimal(&mut t, missing as u64);
        t.append(" to download");
        (t, Tone::Warning)
    }
}

/// How many of the selection's tracks are already on disk: every track
/// (bismillah clips included) counts, and with an unknown reciter every track
/// is to download. The files on disk are what the disk check found for the
/// selection's track paths.
pub fn availability(catalog: &Catalog, root: &str, sel: &PlaylistItem) -> (r: (String, Tone))
    requires
        segmentable(catalog.surahs@, sel.from_surah, sel.to_surah),
    ensures
        ({
            let total = item_labels(catalog.surahs@, *sel).len();
            match first_reciter(catalog.reciters@, sel.reciter_id@) {
                None => r.0@ == availability_spec(total, total).0 && r.1 == availability_spec(total, total).1,
                Some(rc) => exists|present: Set<Seq<char>>| {
                    let missing = (#[trigger] missing_among(item_files(catalog.surahs@, rc, root@, *sel), present)).len();
                    &&& observed_on_disk(item_paths(catalog.surahs@, rc, root@, *sel), present)
                    &&& r.0@ == availability_spec(total, missing).0 && r.1 == availability_spec(total, missing).1
                },
            }
        }),
{
    let segments = playback_segments(
        catalog.surahs.as_slice(),
        sel.from_surah,
        sel.to_surah,
        sel.from_ayah,
        sel.to_ayah,
    );
    let ghost plan = item_plan(catalog.surahs@, *sel);
    let labels = per_ayah_labels(segments.as_slice());
    let total = labels.len();
    match catalog.reciter(sel.reciter_id.as_str()) {
        None => {
            proof {
                lemma_realized(segments@, plan, crate::domain::catalog::Reciter {
                    id: sel.reciter_id,
                    display_name: sel.reciter_id,
                    file_slug: sel.reciter_id,
                    per_ayah_directory_slug: sel.reciter_id,
                }, root@);
            }
            assert(crate::content::resolver::strings_view(labels@).len() == labels@.len());
            assert(total == item_labels(catalog.surahs@, *sel).len());
            availability_text(total, total)
        },
        Some(rc) => {
            proof {
                lemma_realized(segments@, plan, *rc, root@);
            }
            let missing = missing_files(segments.as_slice(), rc, root);
            let ghost present = choose|p: Set<Seq<char>>|
                observed_on_disk(paths_of(segments@, *rc, root@), p) && files_view(missing@) == missing_among(
                    files_of(segments@, *rc, root@),
                    p,
                );
            let r = availability_text(total, missing.len());
            assert(crate::content::resolver::strings_view(labels@).len() == labels@.len());
            assert(total == item_labels(catalog.surahs@, *sel).len());
            assert(files_view(missing@).len() == missing@.len());
            let ghost rcs = first_reciter(catalog.reciters@, sel.reciter_id@)->0;
            assert(rcs == *rc);
            assert(missing_among(item_files(catalog.surahs@, rcs, root@, *sel), present).len() == missing@.len());
            r
        },
    }
}

} // verus!
