//! Application state vocabulary — tabs, focus, modals, toasts — and the pure
//! decisions behind the key handlers: cursor steps, field cycling, range
//! clamping, track-label parsing and the Now Playing titles.

pub mod browse;
pub mod keys;
pub mod outputs;
pub mod playlists;

use std::collections::{HashMap, HashSet};

use vstd::prelude::*;

use crate::config::AppConfig;
use crate::domain::catalog::{
    ayah_count_of, first_reciter, first_surah, is_first_reciter, is_first_surah, Catalog, Reciter, Surah,
};
use crate::domain::verses::{SurahVerses, Verse};
use crate::model::playlist::PlaylistItem;
use crate::text::{
    ascii_lower, clamp, clamp_u16, contains_chars, contains_seq, decimal, lowercase_str, lowercase_str_of, parse_bounded,
    parse_bounded_chars, is_ascii_seq, push_decimal, str_chars,
};

verus! {

/// `std::time::Instant`, carried opaquely as a toast's expiry time.
#[verifier::external_type_specification]
#[verifier::external_body]
pub struct ExInstant(std::time::Instant);

/// The four primary tabs.
#[derive(Clone, Copy, PartialEq, Eq, Debug)]
pub enum Tab {
    NowPlaying,
    Browse,
    Outputs,
    Playlists,
}

/// Position of `t` in the tab strip.
pub open spec fn tab_index(t: Tab) -> int {
    match t {
        Tab::NowPlaying => 0,
        Tab::Browse => 1,
        Tab::Outputs => 2,
        Tab::Playlists => 3,
    }
}

/// The tab at position `i` of the tab strip (`0 <= i < 4`).
pub open spec fn tab_at(i: int) -> Tab {
    if i == 0 {
        Tab::NowPlaying
    } else if i == 1 {
        Tab::Browse
    } else if i == 2 {
        Tab::Outputs
    } else {
        Tab::Playlists
    }
}

impl Tab {
    /// Tabs in display order; index 0 is the landing screen.
    pub const ALL: [Tab; 4] = [Tab::NowPlaying, Tab::Browse, Tab::Outputs, Tab::Playlists];

    /// Human-readable tab label shown in the tab strip.
    pub fn title(self) -> (r: &'static str)
        ensures
            r@ == match self {
                Tab::NowPlaying => "Now Playing"@,
                Tab::Browse => "Browse"@,
                Tab::Outputs => "Outputs"@,
                Tab::Playlists => "Playlists"@,
            },
    {
        match self {
            Tab::NowPlaying => "Now Playing",
            Tab::Browse => "Browse",
            Tab::Outputs => "Outputs",
            Tab::Playlists => "Playlists",
        }
    }

    /// Position of this tab in [`Tab::ALL`].
    pub fn index(self) -> (r: usize)
        ensures
            r == tab_index(self),
    {
        match self {
            Tab::NowPlaying => 0,
            Tab::Browse => 1,
            Tab::Outputs => 2,
            Tab::Playlists => 3,
        }
    }

    /// The tab `delta` steps away in the strip, wrapping around.
    pub fn cycle(self, delta: isize) -> (r: Tab)
        ensures
            r == tab_at((tab_index(self) + delta) % 4),
    {
        let step = delta % 4;
        let next = ((self.index() as isize + step + 4) % 4) as usize;
        if next == 0 {
            Tab::NowPlaying
        } else if next == 1 {
            Tab::Browse
        } else if next == 2 {
            Tab::Outputs
        } else {
            Tab::Playlists
        }
    }
}


/// Law: cycling the tab strip forward then back by the same amount returns to
/// the starting tab.
pub proof fn lemma_tab_cycle_inverse(t: Tab, delta: int)
    ensures
        tab_at((tab_index(tab_at((tab_index(t) + delta) % 4)) - delta) % 4) == t,
{
    let i = tab_index(t);
    let j = (i + delta) % 4;
    assert(tab_index(tab_at(j)) == j);
    assert((j - delta) % 4 == i) by {
        vstd::arithmetic::div_mod::lemma_fundamental_div_mod(i + delta, 4);
        vstd::arithmetic::div_mod::lemma_fundamental_div_mod_converse(
            j - delta,
            4,
            -((i + delta) / 4),
            i,
        );
    }
}

/// Severity of a transient status message.
#[derive(Clone, Copy, PartialEq, Eq, Debug)]
pub enum ToastKind {
    Info,
    Warn,
    Error,
}

/// A transient status message shown above the transport bar.
pub struct Toast {
    pub text: String,
    pub kind: ToastKind,
    pub expires: std::time::Instant,
}

/// What the Now Playing verse panel should display for the current track.
pub enum VerseView<'a> {
    /// Verse text and translation are ready to show.
    Ready { surah: u16, ayah: u16, verse: &'a Verse },
    /// A fetch for this surah is in flight.
    Loading,
    /// The verse could not be loaded — offline, or the fetch failed.
    Unavailable,
    /// No verse applies — a bismillah clip or a whole-surah fallback file.
    Hidden,
}

/// Which Browse control currently has focus.
#[derive(Clone, Copy, PartialEq, Eq, Debug)]
pub enum BrowseField {
    SurahList,
    FromSurah,
    FromAyah,
    ToSurah,
    ToAyah,
}

/// Position of `f` in the Browse tab-cycle order.
pub open spec fn field_index(f: BrowseField) -> int {
    match f {
        BrowseField::SurahList => 0,
        BrowseField::FromSurah => 1,
        BrowseField::FromAyah => 2,
        BrowseField::ToSurah => 3,
        BrowseField::ToAyah => 4,
    }
}

/// The Browse field at position `i` (`0 <= i < 5`) of the tab-cycle order.
pub open spec fn field_at(i: int) -> BrowseField {
    if i == 0 {
        BrowseField::SurahList
    } else if i == 1 {
        BrowseField::FromSurah
    } else if i == 2 {
        BrowseField::FromAyah
    } else if i == 3 {
        BrowseField::ToSurah
    } else {
        BrowseField::ToAyah
    }
}

impl BrowseField {
    /// True for the four editable numeric range fields.
    pub fn is_numeric(self) -> (r: bool)
        ensures
            r == (self != BrowseField::SurahList),
    {
        !matches!(self, BrowseField::SurahList)
    }

    /// The field `delta` steps away in the tab-cycle order, wrapping around.
    pub fn cycle(self, delta: isize) -> (r: BrowseField)
        ensures
            r == field_at((field_index(self) + delta) % 5),
    {
        let current: isize = match self {
            BrowseField::SurahList => 0,
            BrowseField::FromSurah => 1,
            BrowseField::FromAyah => 2,
            BrowseField::ToSurah => 3,
            BrowseField::ToAyah => 4,
        };
        let next = (current + delta % 5 + 5) % 5;
        if next == 0 {
            BrowseField::SurahList
        } else if next == 1 {
            BrowseField::FromSurah
        } else if next == 2 {
            BrowseField::FromAyah
        } else if next == 3 {
            BrowseField::ToSurah
        } else {
            BrowseField::ToAyah
        }
    }
}

/// Law: cycling the Browse fields forward then back by the same amount returns
/// to the starting field.
pub proof fn lemma_field_cycle_inverse(f: BrowseField, delta: int)
    ensures
        field_at((field_index(field_at((field_index(f) + delta) % 5)) - delta) % 5) == f,
{
    let i = field_index(f);
    let j = (i + delta) % 5;
    assert(field_index(field_at(j)) == j);
    assert((j - delta) % 5 == i) by {
        vstd::arithmetic::div_mod::lemma_fundamental_div_mod(i + delta, 5);
        vstd::arithmetic::div_mod::lemma_fundamental_div_mod_converse(
            j - delta,
            5,
            -((i + delta) / 5),
            i,
        );
    }
}

/// Which list the Outputs tab is currently navigating.
#[derive(Clone, Copy, PartialEq, Eq, Debug)]
pub enum OutputsFocus {
    Channels,
    Devices,
}

impl OutputsFocus {
    /// The other list.
    pub fn toggled(self) -> (r: OutputsFocus)
        ensures
            r == match self {
                OutputsFocus::Channels => OutputsFocus::Devices,
                OutputsFocus::Devices => OutputsFocus::Channels,
            },
    {
        match self {
            OutputsFocus::Channels => OutputsFocus::Devices,
            OutputsFocus::Devices => OutputsFocus::Channels,
        }
    }
}

/// Which pane the Playlists tab is currently navigating.
#[derive(Clone, Copy, PartialEq, Eq, Debug)]
pub enum PlaylistPane {
    /// The list of playlists, on the left.
    Playlists,
    /// The tracks within the selected playlist, on the right.
    Items,
}

impl PlaylistPane {
    /// The other pane.
    pub fn toggled(self) -> (r: PlaylistPane)
        ensures
            r == match self {
                PlaylistPane::Playlists => PlaylistPane::Items,
                PlaylistPane::Items => PlaylistPane::Playlists,
            },
    {
        match self {
            PlaylistPane::Playlists => PlaylistPane::Items,
            PlaylistPane::Items => PlaylistPane::Playlists,
        }
    }
}

/// What a confirmed text-input modal should do.
#[derive(Debug, Clone)]
pub enum TextAction {
    CreatePlaylist,
    RenamePlaylist(String),
}

/// What a confirmed yes/no modal should do.
#[derive(Debug, Clone)]
pub enum ConfirmAction {
    DeletePlaylist(String),
}

/// A modal dialog that captures all input until dismissed.
pub enum Modal {
    Text { title: String, input: String, action: TextAction },
    Confirm { title: String, message: String, action: ConfirmAction },
}

/// Position of the first `':'` in `s`, if any.
pub open spec fn first_colon(s: Seq<char>) -> Option<int> {
    if exists|i: int| 0 <= i < s.len() && s[i] == ':' {
        Some(choose|i: int| 0 <= i < s.len() && s[i] == ':' && forall|j: int| 0 <= j < i ==> s[j] != ':')
    } else {
        None
    }
}

/// What `parse_track_ref` gives: the `<surah>:<ayah>` numbers on either side of
/// the first `':'`, each parsed as a `u16`.
pub open spec fn track_ref_spec(s: Seq<char>) -> Option<(u16, u16)> {
    match first_colon(s) {
        None => None,
        Some(c) => match (
            parse_bounded(s.subrange(0, c), 65535),
            parse_bounded(s.subrange(c + 1, s.len() as int), 65535),
        ) {
            (Some(a), Some(b)) => Some((a as u16, b as u16)),
            _ => None,
        },
    }
}

/// Law: every `surah:ayah` label the resolver produces parses back to its
/// numbers.
pub proof fn lemma_track_label_roundtrip(surah: u16, ayah: u16)
    ensures
        track_ref_spec(crate::content::resolver::ayah_label(surah as int, ayah as int)) == Some(
            (surah, ayah),
        ),
{
    let ds = decimal(surah as nat);
    let da = decimal(ayah as nat);
    crate::text::lemma_decimal_parses(surah as nat);
    crate::text::lemma_decimal_parses(ayah as nat);
    reveal_strlit(":");
    let label = crate::content::resolver::ayah_label(surah as int, ayah as int);
    assert(label =~= ds + seq![':'] + da);
    let c = ds.len() as int;
    assert(label[c] == ':');
    assert forall|j: int| 0 <= j < c implies label[j] != ':' by {
        assert(label[j] == ds[j]);
        assert(crate::text::is_digit(ds[j]));
    }
    let w = choose|i: int| 0 <= i < label.len() && label[i] == ':' && forall|j: int| 0 <= j < i ==> label[j] != ':';
    assert(w == c) by {
        if w < c {
            assert(label[w] == ds[w]);
            assert(crate::text::is_digit(ds[w]));
        } else if w > c {
            assert(label[c] != ':');
        }
    }
    assert(label.subrange(0, c) =~= ds);
    assert(label.subrange(c + 1, label.len() as int) =~= da);
    assert(crate::text::is_digit(ds[0]));
    assert(crate::text::is_digit(da[0]));
}

/// Parse a track label such as `"18:5"` into `(surah, ayah)`. Non-ayah labels
/// like `"Bismillah"` yield `None`.
pub fn parse_track_ref(label: &str) -> (r: Option<(u16, u16)>)
    ensures
        r == track_ref_spec(label@),
{
    let chars = str_chars(label);
    let mut c: usize = 0;
    while c < chars.len() && chars[c] != ':'
        invariant
            c <= chars@.len(),
            chars@ == label@,
            forall|j: int| 0 <= j < c ==> chars@[j] != ':',
        decreases chars@.len() - c,
    {
        c += 1;
    }
    if c == chars.len() {
        assert(first_colon(label@) is None);
        return None;
    }
    proof {
        let s = label@;
        assert(s[c as int] == ':');
        let w = choose|i: int| 0 <= i < s.len() && s[i] == ':' && forall|j: int| 0 <= j < i ==> s[j] != ':';
        assert(w == c) by {
            if w < c {
                assert(s[w] != ':');
            } else if w > c {
                assert(s[c as int] != ':');
            }
        }
    }
    let surah = parse_bounded_chars(chars.as_slice(), 0, c, 65535);
    let ayah = parse_bounded_chars(chars.as_slice(), c + 1, chars.len(), 65535);
    match (surah, ayah) {
        (Some(a), Some(b)) => Some((a as u16, b as u16)),
        _ => None,
    }
}


/// The value a Browse field shows for selection `sel` (0 for the surah list).
pub open spec fn field_value(sel: PlaylistItem, field: BrowseField) -> u16 {
    match field {
        BrowseField::FromSurah => sel.from_surah,
        BrowseField::FromAyah => sel.from_ayah,
        BrowseField::ToSurah => sel.to_surah,
        BrowseField::ToAyah => sel.to_ayah,
        BrowseField::SurahList => 0,
    }
}

/// `sel` with `field` set to `value` (the surah list changes nothing).
pub open spec fn with_field(sel: PlaylistItem, field: BrowseField, value: u16) -> PlaylistItem {
    match field {
        BrowseField::FromSurah => PlaylistItem { from_surah: value, ..sel },
        BrowseField::FromAyah => PlaylistItem { from_ayah: value, ..sel },
        BrowseField::ToSurah => PlaylistItem { to_surah: value, ..sel },
        BrowseField::ToAyah => PlaylistItem { to_ayah: value, ..sel },
        BrowseField::SurahList => sel,
    }
}

/// `sel` with both surahs clamped to `1..=114` and each ayah bound clamped to
/// its surah's ayah count.
pub open spec fn clamped(surahs: Seq<Surah>, sel: PlaylistItem) -> PlaylistItem {
    let from_surah = clamp(sel.from_surah as int, 1, 114) as u16;
    let to_surah = clamp(sel.to_surah as int, 1, 114) as u16;
    PlaylistItem {
        reciter_id: sel.reciter_id,
        from_surah,
        to_surah,
        from_ayah: clamp(sel.from_ayah as int, 1, ayah_count_of(surahs, from_surah)) as u16,
        to_ayah: clamp(sel.to_ayah as int, 1, ayah_count_of(surahs, to_surah)) as u16,
    }
}

/// Clamping `sel` never clamps into an empty ayah range.
pub open spec fn clampable(surahs: Seq<Surah>, sel: PlaylistItem) -> bool {
    &&& ayah_count_of(surahs, clamp(sel.from_surah as int, 1, 114) as u16) >= 1
    &&& ayah_count_of(surahs, clamp(sel.to_surah as int, 1, 114) as u16) >= 1
}

/// Law: clamping a clamped selection changes nothing.
pub proof fn lemma_clamp_idempotent(surahs: Seq<Surah>, sel: PlaylistItem)
    requires
        clampable(surahs, sel),
    ensures
        clampable(surahs, clamped(surahs, sel)),
        clamped(surahs, clamped(surahs, sel)) == clamped(surahs, sel),
{
    let c = clamped(surahs, sel);
    assert(clamp(c.from_surah as int, 1, 114) == c.from_surah as int);
    assert(clamp(c.to_surah as int, 1, 114) == c.to_surah as int);
}

/// When every surah has ayahs, any selection can be clamped.
pub proof fn lemma_nonempty_clampable(surahs: Seq<Surah>, sel: PlaylistItem)
    requires
        crate::domain::segment::ayahs_nonempty(surahs),
    ensures
        clampable(surahs, sel),
{
    let a = clamp(sel.from_surah as int, 1, 114) as u16;
    let b = clamp(sel.to_surah as int, 1, 114) as u16;
    if exists|i: int| is_first_surah(surahs, a, i) {
        let c = choose|i: int| is_first_surah(surahs, a, i);
        assert(surahs[c].ayah_count >= 1);
    }
    if exists|i: int| is_first_surah(surahs, b, i) {
        let c = choose|i: int| is_first_surah(surahs, b, i);
        assert(surahs[c].ayah_count >= 1);
    }
}

/// The value a numeric Browse field shows for selection `sel`.
pub fn numeric_field_value(sel: &PlaylistItem, field: BrowseField) -> (r: u16)
    ensures
        r == field_value(*sel, field),
{
    match field {
        BrowseField::FromSurah => sel.from_surah,
        BrowseField::FromAyah => sel.from_ayah,
        BrowseField::ToSurah => sel.to_surah,
        BrowseField::ToAyah => sel.to_ayah,
        BrowseField::SurahList => 0,
    }
}

/// Clamp the selection's surah/ayah bounds to valid catalog ranges.
pub fn clamp_selection(catalog: &Catalog, sel: &mut PlaylistItem)
    requires
        clampable(catalog.surahs@, *old(sel)),
    ensures
        *final(sel) == clamped(catalog.surahs@, *old(sel)),
{
    let from_surah = clamp_u16(sel.from_surah, 1, 114);
    let to_surah = clamp_u16(sel.to_surah, 1, 114);
    let from_count = catalog.ayah_count(from_surah);
    let to_count = catalog.ayah_count(to_surah);
    sel.from_surah = from_surah;
    sel.to_surah = to_surah;
    sel.from_ayah = clamp_u16(sel.from_ayah, 1, from_count);
    sel.to_ayah = clamp_u16(sel.to_ayah, 1, to_count);
}

/// Set a numeric Browse field to `raw` (saturated to `u16::MAX`), then clamp
/// the selection.
pub fn set_numeric_field(catalog: &Catalog, sel: &mut PlaylistItem, field: BrowseField, raw: u32)
    requires
        clampable(
            catalog.surahs@,
            with_field(*old(sel), field, (if raw <= 65535 { raw } else { 65535 }) as u16),
        ),
    ensures
        *final(sel) == clamped(
            catalog.surahs@,
            with_field(*old(sel), field, (if raw <= 65535 { raw } else { 65535 }) as u16),
        ),
{
    let value: u16 = if raw <= 65535 {
        raw as u16
    } else {
        65535
    };
    match field {
        BrowseField::FromSurah => sel.from_surah = value,
        BrowseField::FromAyah => sel.from_ayah = value,
        BrowseField::ToSurah => sel.to_surah = value,
        BrowseField::ToAyah => sel.to_ayah = value,
        BrowseField::SurahList => {},
    }
    clamp_selection(catalog, sel);
}

/// Step a numeric Browse field by `delta` (never below 0), then clamp the
/// selection. The surah list is left alone.
pub fn adjust_numeric_field(catalog: &Catalog, sel: &mut PlaylistItem, field: BrowseField, delta: i32)
    requires
        field_value(*old(sel), field) + delta <= i32::MAX,
        field != BrowseField::SurahList ==> clampable(
            catalog.surahs@,
            with_field(
                *old(sel),
                field,
                clamp(field_value(*old(sel), field) + delta, 0, 65535) as u16,
            ),
        ),
    ensures
        field == BrowseField::SurahList ==> *final(sel) == *old(sel),
        field != BrowseField::SurahList ==> *final(sel) == clamped(
            catalog.surahs@,
            with_field(
                *old(sel),
                field,
                clamp(field_value(*old(sel), field) + delta, 0, 65535) as u16,
            ),
        ),
{
    if !field.is_numeric() {
        return;
    }
    let current = numeric_field_value(sel, field) as i32;
    let sum = current + delta;
    let next: u32 = if sum < 0 {
        0
    } else {
        sum as u32
    };
    set_numeric_field(catalog, sel, field, next);
}

/// Commit digits typed into a numeric Browse field: when the field is numeric
/// and the buffer parses as a `u32`, set the field to it.
pub fn commit_edit_buffer(catalog: &Catalog, sel: &mut PlaylistItem, field: BrowseField, buffer: &str)
    requires
        forall|v: u16| clampable(catalog.surahs@, with_field(*old(sel), field, v)),
    ensures
        (field == BrowseField::SurahList || parse_bounded(buffer@, 4294967295) is None) ==> (*final(sel) == *old(sel)),
        field != BrowseField::SurahList ==> (parse_bounded(buffer@, 4294967295) matches Some(raw)
            ==> *final(sel) == clamped(
            catalog.surahs@,
            with_field(*old(sel), field, (if raw <= 65535 { raw } else { 65535 }) as u16),
        )),
{
    if !field.is_numeric() {
        return;
    }
    let chars = str_chars(buffer);
    match parse_bounded_chars(chars.as_slice(), 0, chars.len(), 4294967295) {
        Some(raw) => {
            proof {
                assert(chars@.subrange(0, chars@.len() as int) =~= buffer@);
                let v = (if raw <= 65535 { raw } else { 65535 }) as u16;
                assert(clampable(catalog.surahs@, with_field(*old(sel), field, v)));
            }
            set_numeric_field(catalog, sel, field, raw);
        },
        None => {
            assert(chars@.subrange(0, chars@.len() as int) =~= buffer@);
        },
    }
}

/// Select one whole surah: from = to = the surah, ayahs `1..=ayah_count`.
pub fn apply_surah_selection(sel: &mut PlaylistItem, surah: &Surah)
    ensures
        final(sel).reciter_id == old(sel).reciter_id,
        final(sel).from_surah == surah.number,
        final(sel).to_surah == surah.number,
        final(sel).from_ayah == 1,
        final(sel).to_ayah == surah.ayah_count,
{
    sel.from_surah = surah.number;
    sel.to_surah = surah.number;
    sel.from_ayah = 1;
    sel.to_ayah = surah.ayah_count;
}

/// A cursor moved by `delta`, clamped to a non-empty list of `len` entries.
pub fn step_cursor(current: usize, delta: isize, len: usize) -> (r: usize)
    requires
        len > 0,
        len <= isize::MAX,
        current <= isize::MAX,
        isize::MIN <= current + delta <= isize::MAX,
    ensures
        r == clamp(current + delta, 0, len - 1),
{
    let last = len as isize - 1;
    let next = current as isize + delta;
    if next < 0 {
        0
    } else if next > last {
        last as usize
    } else {
        next as usize
    }
}

/// Position of the first reciter whose id is `id`, or 0 when none has it.
pub open spec fn reciter_position(reciters: Seq<Reciter>, id: Seq<char>) -> int {
    if exists|i: int| is_first_reciter(reciters, id, i) {
        choose|i: int| is_first_reciter(reciters, id, i)
    } else {
        0
    }
}

/// Switch the selection to the reciter `delta` places away in the catalog,
/// wrapping around (an unknown reciter counts as the first). No change when the
/// catalog has no reciters.
pub fn cycle_reciter(catalog: &Catalog, sel: &mut PlaylistItem, delta: isize)
    requires
        catalog.reciters@.len() <= isize::MAX,
    ensures
        catalog.reciters@.len() == 0 ==> *final(sel) == *old(sel),
        catalog.reciters@.len() > 0 ==> {
            let len = catalog.reciters@.len() as int;
            let next = (reciter_position(catalog.reciters@, old(sel).reciter_id@) + delta) % len;
            &&& final(sel).reciter_id == catalog.reciters@[next].id
            &&& final(sel).from_surah == old(sel).from_surah
            &&& final(sel).to_surah == old(sel).to_surah
            &&& final(sel).from_ayah == old(sel).from_ayah
            &&& final(sel).to_ayah == old(sel).to_ayah
        },
{
    let len = catalog.reciters.len();
    if len == 0 {
        return;
    }
    let mut i: usize = 0;
    while i < len && !crate::text::str_eq(catalog.reciters[i].id.as_str(), sel.reciter_id.as_str())
        invariant
            len == catalog.reciters@.len(),
            i <= len,
            forall|j: int| 0 <= j < i ==> catalog.reciters@[j].id@ != sel.reciter_id@,
        decreases len - i,
    {
        i += 1;
    }
    let current: usize = if i < len {
        i
    } else {
        0
    };
    proof {
        if i < len {
            assert(is_first_reciter(catalog.reciters@, sel.reciter_id@, i as int));
            let c = choose|k: int| is_first_reciter(catalog.reciters@, sel.reciter_id@, k);
            if c < i {
                assert(catalog.reciters@[c].id@ != sel.reciter_id@);
            } else if c > i {
                assert(catalog.reciters@[i as int].id@ != sel.reciter_id@);
            }
        } else {
            if exists|k: int| is_first_reciter(catalog.reciters@, sel.reciter_id@, k) {
                let c = choose|k: int| is_first_reciter(catalog.reciters@, sel.reciter_id@, k);
                assert(catalog.reciters@[c].id@ == sel.reciter_id@);
            }
        }
    }
    assert(current as int == reciter_position(catalog.reciters@, sel.reciter_id@));
    let du: usize = if delta >= 0 {
        let m = (delta as usize) % len;
        proof {
            vstd::arithmetic::div_mod::lemma_fundamental_div_mod(delta as int, len as int);
        }
        m
    } else {
        let k = (-(delta + 1)) as usize;
        let m = k % len;
        proof {
            vstd::arithmetic::div_mod::lemma_fundamental_div_mod(k as int, len as int);
            let q = (k as int) / (len as int);
            assert(k as int == (len as int) * q + (m as int));
            assert(delta as int == (-q - 1) * (len as int) + (len - 1 - m)) by (nonlinear_arith)
                requires
                    k as int == (len as int) * q + (m as int),
                    delta as int == -(k as int) - 1,
            ;
            vstd::arithmetic::div_mod::lemma_fundamental_div_mod_converse(
                delta as int,
                len as int,
                -q - 1,
                (len - 1 - m) as int,
            );
        }
        len - 1 - m
    };
    assert(du as int == (delta as int) % (len as int));
    let next: usize = if current >= len - du {
        current - (len - du)
    } else {
        current + du
    };
    assert(next as int == (current + delta) % (len as int)) by (nonlinear_arith)
        requires
            len > 0,
            current < len,
            0 <= du < len,
            du as int == (delta as int) % (len as int),
            next == (if current >= len - du { current - (len - du) } else { current + du }),
    ;
    sel.reciter_id = catalog.reciters[next].id.clone();
}


/// The selection restored from saved settings: the saved reciter when the
/// catalog knows it (else the first reciter, else none), and the whole of the
/// saved surah (clamped to `1..=114`; else the first catalog surah; else
/// surah 1 with 7 ayahs).
pub fn restore_config(catalog: &Catalog, config: &AppConfig) -> (r: PlaylistItem)
    ensures
        (exists|i: int| is_first_reciter(catalog.reciters@, config.last_reciter_id@, i)) ==> r.reciter_id@
            == config.last_reciter_id@,
        !(exists|i: int| is_first_reciter(catalog.reciters@, config.last_reciter_id@, i)) ==> r.reciter_id@
            == (if catalog.reciters@.len() > 0 { catalog.reciters@[0].id@ } else { Seq::empty() }),
        r.to_surah == r.from_surah,
        r.from_ayah == 1,
        ({
            let wanted = first_surah(catalog.surahs@, clamp(config.last_surah as int, 1, 114) as u16);
            match wanted {
                Some(s) => r.from_surah == s.number && r.to_ayah == s.ayah_count,
                None => if catalog.surahs@.len() > 0 {
                    r.from_surah == catalog.surahs@[0].number && r.to_ayah == catalog.surahs@[0].ayah_count
                } else {
                    r.from_surah == 1 && r.to_ayah == 7
                },
            }
        }),
{
    let reciter_id = match catalog.reciter(config.last_reciter_id.as_str()) {
        Some(_) => config.last_reciter_id.clone(),
        None => {
            if catalog.reciters.len() > 0 {
                catalog.reciters[0].id.clone()
            } else {
                String::new()
            }
        },
    };
    proof {
        if exists|i: int| is_first_reciter(catalog.reciters@, config.last_reciter_id@, i) {
            let c = choose|i: int| is_first_reciter(catalog.reciters@, config.last_reciter_id@, i);
            assert(catalog.reciters@[c].id@ == config.last_reciter_id@);
        }
    }
    let wanted = clamp_u16(config.last_surah, 1, 114);
    let (from_surah, ayah_count) = match catalog.surah(wanted) {
        Some(s) => (s.number, s.ayah_count),
        None => {
            if catalog.surahs.len() > 0 {
                (catalog.surahs[0].number, catalog.surahs[0].ayah_count)
            } else {
                (1u16, 7u16)
            }
        },
    };
    PlaylistItem { reciter_id, from_surah, to_surah: from_surah, from_ayah: 1, to_ayah: ayah_count }
}

/// The Now Playing title for a selection when no per-ayah track applies: the
/// surah name, with the ayah range when narrower than the whole surah, or
/// `"<name> …"` for a multi-surah span; `"Quran TUI"` for an unknown surah.
pub open spec fn default_title_spec(surahs: Seq<Surah>, sel: PlaylistItem) -> Seq<char> {
    match first_surah(surahs, sel.from_surah) {
        None => "Quran TUI"@,
        Some(s) => if sel.from_surah == sel.to_surah && sel.from_ayah == 1 && sel.to_ayah
            == s.ayah_count {
            s.name_transliterated@
        } else if sel.from_surah == sel.to_surah {
            s.name_transliterated@ + " "@ + decimal(sel.from_ayah as nat) + "\u{2013}"@ + decimal(
                sel.to_ayah as nat,
            )
        } else {
            s.name_transliterated@ + " \u{2026}"@
        },
    }
}

/// The Now Playing title for the current track label: the default title
/// followed by `" (full)"` for a whole-surah fallback, `"<surah name> <ayah>"` for a known `surah:ayah`
/// label, and the label itself otherwise.
pub open spec fn track_title_spec(
    surahs: Seq<Surah>,
    label: Seq<char>,
    is_fallback: bool,
    sel: PlaylistItem,
) -> Seq<char> {
    if is_fallback {
        default_title_spec(surahs, sel) + " (full)"@
    } else {
        match track_ref_spec(label) {
            Some((surah, ayah)) => match first_surah(surahs, surah) {
                Some(s) => s.name_transliterated@ + " "@ + decimal(ayah as nat),
                None => label,
            },
            None => label,
        }
    }
}

/// Now Playing title when nothing is loaded yet, or when only a whole-surah
/// file is playing.
pub fn format_default_title(catalog: &Catalog, sel: &PlaylistItem) -> (r: String)
    ensures
        r@ == default_title_spec(catalog.surahs@, *sel),
{
    let surah = match catalog.surah(sel.from_surah) {
        Some(s) => s,
        None => return String::from_str("Quran TUI"),
    };
    if sel.from_surah == sel.to_surah && sel.from_ayah == 1 && sel.to_ayah == surah.ayah_count {
        surah.name_transliterated.clone()
    } else if sel.from_surah == sel.to_surah {
        let mut s = surah.name_transliterated.clone();
        s.append(" ");
        push_decimal(&mut s, sel.from_ayah as u64);
        s.append("\u{2013}");
        push_decimal(&mut s, sel.to_ayah as u64);
        s
    } else {
        let mut s = surah.name_transliterated.clone();
        s.append(" \u{2026}");
        s
    }
}

/// Now Playing title for the currently playing track: per-ayah
/// (`"Al-Kahf 5"`), whole-surah fallback (`"Al-Kahf (full)"`), and labels not
/// of the `surah:ayah` form (`"Bismillah"`), which pass through verbatim.
pub fn format_track_title(catalog: &Catalog, label: &str, is_fallback: bool, sel: &PlaylistItem) -> (r: String)
    ensures
        r@ == track_title_spec(catalog.surahs@, label@, is_fallback, *sel),
{
    if is_fallback {
        let mut t = format_default_title(catalog, sel);
        t.append(" (full)");
        return t;
    }
    match parse_track_ref(label) {
        Some((surah, ayah)) => match catalog.surah(surah) {
            Some(s) => {
                let mut t = s.name_transliterated.clone();
                t.append(" ");
                push_decimal(&mut t, ayah as u64);
                t
            },
            None => String::from_str(label),
        },
        None => String::from_str(label),
    }
}


/// Whether surah `s` matches the lowercased search needle: by lowercased name
/// or by number.
pub open spec fn surah_matches(s: Surah, needle: Seq<char>) -> bool {
    contains_seq(lowercase_str_of(s.name_transliterated@), needle) || contains_seq(
        decimal(s.number as nat),
        needle,
    )
}

/// `surah_matches` for ASCII text: the name lowercased letter by letter.
pub open spec fn ascii_surah_matches(s: Surah, needle: Seq<char>) -> bool {
    contains_seq(s.name_transliterated@.map_values(|c: char| ascii_lower(c)), needle) || contains_seq(
        decimal(s.number as nat),
        needle,
    )
}

/// Every surah name in `surahs` is ASCII.
pub open spec fn ascii_names(surahs: Seq<Surah>) -> bool {
    forall|k: int| 0 <= k < surahs.len() ==> is_ascii_seq(#[trigger] surahs[k].name_transliterated@)
}

/// The surah list, filtered by the active search query (all surahs when no
/// search is active). For an ASCII query over ASCII names, matching ignores
/// ASCII case.
pub fn filtered_surahs<'a>(catalog: &'a Catalog, search: Option<&str>) -> (r: Vec<&'a Surah>)
    ensures
        search is None ==> r@.map_values(|x: &Surah| *x) == catalog.surahs@,
        search matches Some(q) ==> r@.map_values(|x: &Surah| *x) == catalog.surahs@.filter(
            |s: Surah| surah_matches(s, lowercase_str_of(q@)),
        ),
        search matches Some(q) ==> (is_ascii_seq(q@) && ascii_names(catalog.surahs@) ==> r@.map_values(
            |x: &Surah| *x,
        ) == catalog.surahs@.filter(
            |s: Surah| ascii_surah_matches(s, q@.map_values(|c: char| ascii_lower(c))),
        )),
{
    let ghost needle_spec = match search {
        Some(q) => lowercase_str_of(q@),
        None => Seq::empty(),
    };
    let needle: Vec<char> = match search {
        Some(q) => lowercase_str(q),
        None => Vec::new(),
    };
    let mut out: Vec<&'a Surah> = Vec::new();
    let mut i: usize = 0;
    while i < catalog.surahs.len()
        invariant
            i <= catalog.surahs@.len(),
            needle@ == needle_spec,
            search is None ==> out@.map_values(|x: &Surah| *x) == catalog.surahs@.take(i as int),
            search is Some ==> out@.map_values(|x: &Surah| *x) == catalog.surahs@.take(i as int).filter(
                |s: Surah| surah_matches(s, needle_spec),
            ),
            search matches Some(q) ==> (is_ascii_seq(q@) ==> needle@ == q@.map_values(|c: char| ascii_lower(c))),
            search matches Some(q) ==> (is_ascii_seq(q@) && ascii_names(catalog.surahs@) ==> out@.map_values(
                |x: &Surah| *x,
            ) == catalog.surahs@.take(i as int).filter(
                |s: Surah| ascii_surah_matches(s, q@.map_values(|c: char| ascii_lower(c))),
            )),
        decreases catalog.surahs@.len() - i,
    {
        let s = &catalog.surahs[i];
        let keep = match search {
            None => true,
            Some(_) => {
                let name = lowercase_str(s.name_transliterated.as_str());
                proof {
                    if ascii_names(catalog.surahs@) {
                        assert(is_ascii_seq(catalog.surahs@[i as int].name_transliterated@));
                    }
                }
                let number = crate::text::decimal_string(s.number as u64);
                let number_chars = str_chars(number.as_str());
                contains_chars(name.as_slice(), needle.as_slice()) || contains_chars(
                    number_chars.as_slice(),
                    needle.as_slice(),
                )
            },
        };
        let ghost before = out@;
        proof {
            reveal_with_fuel(Seq::filter, 1);
            assert(catalog.surahs@.take(i + 1).drop_last() =~= catalog.surahs@.take(i as int));
            assert(catalog.surahs@.take(i + 1).last() == *s);
        }
        if keep {
            out.push(s);
            assert(out@.map_values(|x: &Surah| *x) =~= before.map_values(|x: &Surah| *x).push(*s));
        }
        i += 1;
    }
    proof {
        assert(catalog.surahs@.take(catalog.surahs@.len() as int) =~= catalog.surahs@);
    }
    out
}

/// What the verse panel shows for a track labelled `label` (`None` when no
/// track is current): nothing for a whole-surah file or a label that is not
/// `surah:ayah`; the verse once its surah is loaded (unavailable when the
/// surah lacks that ayah); loading while the surah's fetch runs; unavailable
/// otherwise.
pub open spec fn verse_view_spec(
    r: VerseView,
    verses: Map<u16, SurahVerses>,
    pending: Set<u16>,
    is_fallback: bool,
    label: Option<Seq<char>>,
) -> bool {
    if is_fallback {
        r is Hidden
    } else {
        match label {
            None => r is Hidden,
            Some(l) => match track_ref_spec(l) {
                None => r is Hidden,
                Some((surah, ayah)) => if verses.contains_key(surah) {
                    if 1 <= ayah <= verses[surah].verses@.len() {
                        r matches VerseView::Ready { surah: s, ayah: a, verse } && s == surah && a == ayah && *verse
                            == verses[surah].verses@[ayah - 1]
                    } else {
                        r is Unavailable
                    }
                } else if pending.contains(surah) {
                    r is Loading
                } else {
                    r is Unavailable
                },
            },
        }
    }
}

/// Verse-panel state for an output's current track, given the loaded verse
/// text per surah and the surahs whose fetch is in flight.
pub fn current_verse<'a>(
    verses: &'a HashMap<u16, SurahVerses>,
    pending: &HashSet<u16>,
    is_fallback: bool,
    label: Option<&str>,
) -> (r: VerseView<'a>)
    ensures
        verse_view_spec(
            r,
            verses@,
            pending@,
            is_fallback,
            match label {
                Some(l) => Some(l@),
                None => None,
            },
        ),
{
    broadcast use vstd::std_specs::hash::group_hash_axioms;

    if is_fallback {
        return VerseView::Hidden;
    }
    let l = match label {
        Some(l) => l,
        None => return VerseView::Hidden,
    };
    let (surah, ayah) = match parse_track_ref(l) {
        Some(pair) => pair,
        None => return VerseView::Hidden,
    };
    match verses.get(&surah) {
        Some(surah_verses) => match surah_verses.ayah(ayah) {
            Some(verse) => VerseView::Ready { surah, ayah, verse },
            None => VerseView::Unavailable,
        },
        None => {
            if pending.contains(&surah) {
                VerseView::Loading
            } else {
                VerseView::Unavailable
            }
        },
    }
}

/// The Now Playing title and artist the OS media widget shows for an output:
/// the track title (or the default title when no track is current) and the
/// reciter's display name, or `"Unknown reciter"`.
pub fn now_playing_text(catalog: &Catalog, label: Option<&str>, is_fallback: bool, sel: &PlaylistItem) -> (r: (
    String,
    String,
))
    ensures
        r.0@ == match label {
            Some(l) => track_title_spec(catalog.surahs@, l@, is_fallback, *sel),
            None => default_title_spec(catalog.surahs@, *sel),
        },
        r.1@ == match first_reciter(catalog.reciters@, sel.reciter_id@) {
            Some(rc) => rc.display_name@,
            None => "Unknown reciter"@,
        },
{
    let title = match label {
        Some(l) => format_track_title(catalog, l, is_fallback, sel),
        None => format_default_title(catalog, sel),
    };
    let artist = match catalog.reciter(sel.reciter_id.as_str()) {
        Some(rc) => rc.display_name.clone(),
        None => String::from_str("Unknown reciter"),
    };
    (title, artist)
}

/// The surah numbers among `nums` to fetch verse text for, in order: each
/// one neither `loaded`, nor `pending`, nor already listed.
pub open spec fn fetch_order(nums: Seq<u16>, loaded: Set<u16>, pending: Set<u16>) -> Seq<u16>
    decreases nums.len(),
{
    if nums.len() == 0 {
        Seq::empty()
    } else {
        let prev = fetch_order(nums.drop_last(), loaded, pending);
        let n = nums.last();
        if !loaded.contains(n) && !pending.contains(n) && !prev.contains(n) {
            prev.push(n)
        } else {
            prev
        }
    }
}

/// The surah numbers of `segments`, in order.
pub open spec fn segment_surahs(segments: Seq<crate::domain::segment::PlaybackSegment>) -> Seq<u16> {
    segments.map_values(|s: crate::domain::segment::PlaybackSegment| s.surah.number)
}

/// The surahs of `segments` whose verse text is neither loaded nor being
/// fetched, in order and each once; they are marked as being fetched.
pub fn surahs_to_fetch(
    segments: &[crate::domain::segment::PlaybackSegment],
    loaded: &HashMap<u16, SurahVerses>,
    pending: &mut HashSet<u16>,
) -> (r: Vec<u16>)
    ensures
        r@ == fetch_order(segment_surahs(segments@), loaded@.dom(), old(pending)@),
        final(pending)@ == old(pending)@ + r@.to_set(),
{
    broadcast use vstd::std_specs::hash::group_hash_axioms;

    let ghost nums = segment_surahs(segments@);
    let mut out: Vec<u16> = Vec::new();
    let mut k: usize = 0;
    while k < segments.len()
        invariant
            k <= segments@.len(),
            nums == segment_surahs(segments@),
            out@ == fetch_order(nums.take(k as int), loaded@.dom(), old(pending)@),
            pending@ == old(pending)@ + out@.to_set(),
        decreases segments@.len() - k,
    {
        let surah = segments[k].surah.number;
        proof {
            assert(nums.take(k + 1).drop_last() =~= nums.take(k as int));
            assert(nums.take(k + 1).last() == surah);
        }
        if !loaded.contains_key(&surah) {
            let fresh = pending.insert(surah);
            if fresh {
                let ghost prev = out@;
                out.push(surah);
                proof {
                    assert(out@ == prev.push(surah));
                    assert forall|x: u16| #[trigger] out@.contains(x) == (prev.contains(x) || x == surah) by {
                        if prev.contains(x) {
                            let i = choose|i: int| 0 <= i < prev.len() && prev[i] == x;
                            assert(out@[i] == x);
                        }
                        if x == surah {
                            assert(out@[prev.len() as int] == x);
                        }
                        if out@.contains(x) {
                            let i = choose|i: int| 0 <= i < out@.len() && out@[i] == x;
                            if i < prev.len() {
                                assert(prev[i] == x);
                            }
                        }
                    }
                    assert(out@.to_set() =~= prev.to_set().insert(surah));
                    assert(pending@ =~= old(pending)@ + out@.to_set());
                }
            } else {
                proof {
                    assert(pending@ =~= old(pending)@ + out@.to_set());
                }
            }
        }
        k += 1;
    }
    proof {
        assert(nums.take(segments@.len() as int) =~= nums);
    }
    out
}

/// Record a finished verse fetch for `surah`: it is no longer being fetched,
/// and its verses are stored when the fetch succeeded. Returns the error of a
/// failed fetch, which the panel shows as unavailable.
pub fn record_verses(
    loaded: &mut HashMap<u16, SurahVerses>,
    pending: &mut HashSet<u16>,
    surah: u16,
    result: Result<SurahVerses, String>,
) -> (r: Option<String>)
    ensures
        final(pending)@ == old(pending)@.remove(surah),
        match result {
            Ok(v) => final(loaded)@ == old(loaded)@.insert(surah, v) && r is None,
            Err(e) => final(loaded)@ == old(loaded)@ && r == Some(e),
        },
{
    broadcast use vstd::std_specs::hash::group_hash_axioms;

    pending.remove(&surah);
    match result {
        Ok(v) => {
            loaded.insert(surah, v);
            None
        },
        Err(e) => Some(e),
    }
}

} // verus!
