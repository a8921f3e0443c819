//! The Browse tab: picking a surah from the searchable list, typing into the
//! range fields, choosing the reciter — and what each key does to the Browse
//! state and to the focused output's selection.

use vstd::prelude::*;

use crate::app::{
    adjust_numeric_field, apply_surah_selection, clamped, commit_edit_buffer, cycle_reciter, field_at,
    field_index, field_value, filtered_surahs, lemma_nonempty_clampable, reciter_position, surah_matches,
    with_field, BrowseField,
};
use crate::domain::catalog::{is_first_surah, Catalog, Reciter, Surah};
use crate::domain::segment::ayahs_nonempty;
use crate::model::playlist::PlaylistItem;
use crate::text::{all_digits, clamp, is_digit, lowercase_str_of, parse_bounded, pop_char};

verus! {

/// UI-only state of the Browse tab. The selection it edits lives with the
/// focused output.
pub struct BrowseState {
    /// Which control has focus.
    pub field: BrowseField,
    /// The highlighted row of the (possibly filtered) surah list.
    pub cursor: usize,
    /// `Some` while the incremental surah search is active.
    pub search: Option<String>,
    /// Digits typed into the focused numeric field before they are committed.
    pub edit_buffer: String,
}

/// The contents of a [`BrowseState`].
pub struct BrowseView {
    pub field: BrowseField,
    pub cursor: nat,
    pub search: Option<Seq<char>>,
    pub buffer: Seq<char>,
}

impl View for BrowseState {
    type V = BrowseView;

    open spec fn view(&self) -> BrowseView {
        BrowseView {
            field: self.field,
            cursor: self.cursor as nat,
            search: match self.search {
                Some(q) => Some(q@),
                None => None,
            },
            buffer: self.edit_buffer@,
        }
    }
}

/// A key as the Browse tab sees it.
#[derive(Debug, Clone, Copy, PartialEq, Eq)]
pub enum BrowseKey {
    Tab,
    BackTab,
    Left,
    Right,
    Up,
    Down,
    Enter,
    Esc,
    Backspace,
    Char(char),
    Other,
}

/// What a Browse key leads to.
#[derive(Debug, Clone, Copy, PartialEq, Eq)]
pub enum BrowseOutcome {
    /// Not a Browse key: the global handler gets it.
    Ignored,
    /// Handled here.
    Handled,
    /// Start playback of the selection on the focused output.
    Play { autoplay: bool },
    /// Append the selection to the selected playlist.
    AddToPlaylist,
}

/// The surah list as shown: all surahs, or those matching the search query
/// (by lowercased name or by number).
pub open spec fn listed(surahs: Seq<Surah>, search: Option<Seq<char>>) -> Seq<Surah> {
    match search {
        None => surahs,
        Some(q) => surahs.filter(|s: Surah| surah_matches(s, lowercase_str_of(q))),
    }
}

/// `sel` with the whole surah on row `cursor` of the list selected (unchanged
/// when the row does not exist).
pub open spec fn pick(surahs: Seq<Surah>, search: Option<Seq<char>>, cursor: nat, sel: PlaylistItem) -> PlaylistItem {
    let l = listed(surahs, search);
    if cursor < l.len() {
        PlaylistItem {
            reciter_id: sel.reciter_id,
            from_surah: l[cursor as int].number,
            to_surah: l[cursor as int].number,
            from_ayah: 1,
            to_ayah: l[cursor as int].ayah_count,
        }
    } else {
        sel
    }
}

/// `sel` after committing the typed digits of a numeric field: set to the
/// typed number (saturated to `u16::MAX`) and clamped, when there are digits
/// that parse as a `u32`.
pub open spec fn committed(surahs: Seq<Surah>, v: BrowseView, sel: PlaylistItem) -> PlaylistItem {
    if v.field != BrowseField::SurahList && v.buffer.len() > 0 {
        match parse_bounded(v.buffer, 4294967295) {
            Some(raw) => clamped(surahs, with_field(sel, v.field, (if raw <= 65535 { raw } else { 65535 }) as u16)),
            None => sel,
        }
    } else {
        sel
    }
}

/// `v` with the typed digits dropped.
pub open spec fn cleared(v: BrowseView) -> BrowseView {
    BrowseView { buffer: Seq::empty(), ..v }
}

/// Row of the first catalog surah numbered `number` in the full list, or 0.
pub open spec fn list_position(surahs: Seq<Surah>, number: u16) -> nat {
    if exists|i: int| is_first_surah(surahs, number, i) {
        (choose|i: int| is_first_surah(surahs, number, i)) as nat
    } else {
        0
    }
}

/// The list cursor moved by `delta` (clamped to the list) and the surah under
/// it selected; nothing changes for an empty list.
pub open spec fn moved(surahs: Seq<Surah>, v: BrowseView, sel: PlaylistItem, delta: int) -> (BrowseView, PlaylistItem) {
    let len = listed(surahs, v.search).len();
    if len == 0 {
        (v, sel)
    } else {
        let c = clamp(v.cursor + delta, 0, len - 1) as nat;
        (BrowseView { cursor: c, ..v }, pick(surahs, v.search, c, sel))
    }
}

/// `sel` with the reciter `delta` places away in the catalog (wrapping).
pub open spec fn recited(reciters: Seq<Reciter>, sel: PlaylistItem, delta: int) -> PlaylistItem {
    if reciters.len() == 0 {
        sel
    } else {
        PlaylistItem {
            reciter_id: reciters[(reciter_position(reciters, sel.reciter_id@) + delta) % (reciters.len() as int)].id,
            ..sel
        }
    }
}

/// `sel` with numeric `field` stepped by `delta` (never below 0) and clamped.
pub open spec fn stepped(surahs: Seq<Surah>, sel: PlaylistItem, field: BrowseField, delta: int) -> PlaylistItem {
    if field == BrowseField::SurahList {
        sel
    } else {
        clamped(surahs, with_field(sel, field, clamp(field_value(sel, field) + delta, 0, 65535) as u16))
    }
}

/// A search query with its last character deleted (if any).
pub open spec fn backspaced(q: Seq<char>) -> Seq<char> {
    if q.len() > 0 {
        q.drop_last()
    } else {
        q
    }
}

/// A key while the search is active (query `q`): Esc or Enter ends it and
/// puts the cursor back on the selected surah; typing and Backspace edit the
/// query and select its first match; Up and Down move through the matches.
pub open spec fn search_step(surahs: Seq<Surah>, v: BrowseView, sel: PlaylistItem, q: Seq<char>, key: BrowseKey) -> (
    BrowseView,
    PlaylistItem,
) {
    match key {
        BrowseKey::Esc | BrowseKey::Enter => (
            BrowseView { search: None, cursor: list_position(surahs, sel.from_surah), ..v },
            sel,
        ),
        BrowseKey::Backspace => (
            BrowseView { search: Some(backspaced(q)), cursor: 0, ..v },
            pick(surahs, Some(backspaced(q)), 0, sel),
        ),
        BrowseKey::Up => moved(surahs, v, sel, -1),
        BrowseKey::Down => moved(surahs, v, sel, 1),
        BrowseKey::Char(c) => (BrowseView { search: Some(q.push(c)), cursor: 0, ..v }, pick(surahs, Some(q.push(c)), 0, sel)),
        _ => (v, sel),
    }
}

/// What one key does on the Browse tab: to its state, to the selection, and
/// what follows. While searching, every key but a Ctrl chord goes to the
/// search. Otherwise Tab/BackTab commit and move between fields, Left/Right
/// change the reciter, Up/Down move the list cursor or step the numeric
/// field, `/` starts a search, Enter and `a` commit and play (Enter starts
/// playing), `A` commits and adds to a playlist, and digits (up to three) and
/// Backspace edit a numeric field.
pub open spec fn browse_step(
    surahs: Seq<Surah>,
    reciters: Seq<Reciter>,
    v: BrowseView,
    sel: PlaylistItem,
    key: BrowseKey,
    ctrl: bool,
) -> (BrowseView, PlaylistItem, BrowseOutcome) {
    match v.search {
        Some(q) => if ctrl {
            (v, sel, BrowseOutcome::Ignored)
        } else {
            let (v2, s2) = search_step(surahs, v, sel, q, key);
            (v2, s2, BrowseOutcome::Handled)
        },
        None => match key {
            BrowseKey::Tab => (
                BrowseView { field: field_at((field_index(v.field) + 1) % 5), ..cleared(v) },
                committed(surahs, v, sel),
                BrowseOutcome::Handled,
            ),
            BrowseKey::BackTab => (
                BrowseView { field: field_at((field_index(v.field) - 1) % 5), ..cleared(v) },
                committed(surahs, v, sel),
                BrowseOutcome::Handled,
            ),
            BrowseKey::Left => (v, recited(reciters, sel, -1), BrowseOutcome::Handled),
            BrowseKey::Right => (v, recited(reciters, sel, 1), BrowseOutcome::Handled),
            BrowseKey::Up => if v.field == BrowseField::SurahList {
                let (v2, s2) = moved(surahs, v, sel, -1);
                (v2, s2, BrowseOutcome::Handled)
            } else {
                (cleared(v), stepped(surahs, committed(surahs, v, sel), v.field, 1), BrowseOutcome::Handled)
            },
            BrowseKey::Down => if v.field == BrowseField::SurahList {
                let (v2, s2) = moved(surahs, v, sel, 1);
                (v2, s2, BrowseOutcome::Handled)
            } else {
                (cleared(v), stepped(surahs, committed(surahs, v, sel), v.field, -1), BrowseOutcome::Handled)
            },
            BrowseKey::Enter => (cleared(v), committed(surahs, v, sel), BrowseOutcome::Play { autoplay: true }),
            BrowseKey::Backspace => if v.field != BrowseField::SurahList {
                (BrowseView { buffer: backspaced(v.buffer), ..v }, sel, BrowseOutcome::Handled)
            } else {
                (v, sel, BrowseOutcome::Ignored)
            },
            BrowseKey::Char(c) => if c == '/' {
                (
                    BrowseView { field: BrowseField::SurahList, search: Some(Seq::empty()), cursor: 0, ..v },
                    sel,
                    BrowseOutcome::Handled,
                )
            } else if c == 'a' {
                (cleared(v), committed(surahs, v, sel), BrowseOutcome::Play { autoplay: false })
            } else if c == 'A' {
                (cleared(v), committed(surahs, v, sel), BrowseOutcome::AddToPlaylist)
            } else if is_digit(c) && v.field != BrowseField::SurahList {
                (
                    if v.buffer.len() < 3 {
                        BrowseView { buffer: v.buffer.push(c), ..v }
                    } else {
                        v
                    },
                    sel,
                    BrowseOutcome::Handled,
                )
            } else {
                (v, sel, BrowseOutcome::Ignored)
            },
            BrowseKey::Esc | BrowseKey::Other => (v, sel, BrowseOutcome::Ignored),
        },
    }
}

/// The catalog sizes the Browse tab can index.
pub open spec fn browsable(catalog: &Catalog) -> bool {
    &&& catalog.surahs@.len() < isize::MAX
    &&& catalog.reciters@.len() <= isize::MAX
    &&& ayahs_nonempty(catalog.surahs@)
}

impl BrowseState {
    /// The Browse tab as it opens: the surah list focused with row
    /// `initial_cursor` highlighted, no search, nothing typed.
    pub fn new(initial_cursor: usize) -> (r: Self)
        ensures
            r@ == (BrowseView {
                field: BrowseField::SurahList,
                cursor: initial_cursor as nat,
                search: None,
                buffer: Seq::empty(),
            }),
    {
        BrowseState { field: BrowseField::SurahList, cursor: initial_cursor, search: None, edit_buffer: String::new() }
    }

    /// The state keeps a cursor that can be stepped and at most three typed
    /// digits.
    pub open spec fn wf(&self) -> bool {
        &&& self.cursor < isize::MAX
        &&& all_digits(self.edit_buffer@)
        &&& self.edit_buffer@.len() <= 3
    }

    /// The active search query, as a string slice.
    fn query(&self) -> (r: Option<&str>)
        ensures
            match (r, self.search) {
                (Some(a), Some(b)) => a@ == b@,
                (None, None) => true,
                _ => false,
            },
    {
        match &self.search {
            Some(q) => Some(q.as_str()),
            None => None,
        }
    }

    /// Select the whole surah on the highlighted row.
    fn select_highlighted(&self, catalog: &Catalog, sel: &mut PlaylistItem)
        ensures
            *final(sel) == pick(catalog.surahs@, self@.search, self@.cursor, *old(sel)),
    {
        let list = filtered_surahs(catalog, self.query());
        proof {
            assert(list@.map_values(|x: &Surah| *x) == listed(catalog.surahs@, self@.search));
        }
        if self.cursor < list.len() {
            let s = list[self.cursor];
            assert(*s == listed(catalog.surahs@, self@.search)[self.cursor as int]);
            apply_surah_selection(sel, s);
        }
    }

    /// Move the list cursor by `delta` and select the surah under it.
    fn move_cursor(&mut self, catalog: &Catalog, sel: &mut PlaylistItem, delta: isize)
        requires
            old(self).wf(),
            browsable(catalog),
            -1 <= delta <= 1,
        ensures
            final(self).wf(),
            (final(self)@, *final(sel)) == moved(catalog.surahs@, old(self)@, *old(sel), delta as int),
    {
        let list = filtered_surahs(catalog, self.query());
        proof {
            assert(list@.map_values(|x: &Surah| *x) == listed(catalog.surahs@, self@.search));
            assert(list@.len() <= catalog.surahs@.len()) by {
                if self@.search is Some {
                    catalog.surahs@.lemma_filter_len(|s: Surah| surah_matches(s, lowercase_str_of(self@.search->0)));
                }
            }
        }
        let len = list.len();
        if len == 0 {
            return;
        }
        self.cursor = crate::app::step_cursor(self.cursor, delta, len);
        self.select_highlighted(catalog, sel);
    }

    /// Commit the digits typed into a numeric field, then drop them.
    fn commit(&mut self, catalog: &Catalog, sel: &mut PlaylistItem)
        requires
            old(self).wf(),
            browsable(catalog),
        ensures
            final(self).wf(),
            final(self)@ == cleared(old(self)@),
            *final(sel) == committed(catalog.surahs@, old(self)@, *old(sel)),
    {
        if self.field.is_numeric() && self.edit_buffer.as_str().unicode_len() > 0 {
            proof {
                assert forall|v: u16| crate::app::clampable(catalog.surahs@, with_field(*old(sel), self.field, v)) by {
                    lemma_nonempty_clampable(catalog.surahs@, with_field(*old(sel), self.field, v));
                }
            }
            commit_edit_buffer(catalog, sel, self.field, self.edit_buffer.as_str());
        }
        self.edit_buffer = String::new();
    }

    /// Feed one key to the Browse tab (`ctrl` when Control is held); see
    /// [`browse_step`].
    pub fn handle_key(
        &mut self,
        catalog: &Catalog,
        sel: &mut PlaylistItem,
        key: BrowseKey,
        ctrl: bool,
    ) -> (r: BrowseOutcome)
        requires
            old(self).wf(),
            browsable(catalog),
        ensures
            final(self).wf(),
            (final(self)@, *final(sel), r) == browse_step(
                catalog.surahs@,
                catalog.reciters@,
                old(self)@,
                *old(sel),
                key,
                ctrl,
            ),
    {
        if self.search.is_some() {
            if ctrl {
                return BrowseOutcome::Ignored;
            }
            match key {
                BrowseKey::Esc | BrowseKey::Enter => {
                    self.search = None;
                    self.cursor = surah_row(catalog, sel.from_surah);
                },
                BrowseKey::Backspace => {
                    if let Some(q) = &mut self.search {
                        pop_char(q);
                    }
                    self.cursor = 0;
                    self.select_highlighted(catalog, sel);
                },
                BrowseKey::Up => self.move_cursor(catalog, sel, -1),
                BrowseKey::Down => self.move_cursor(catalog, sel, 1),
                BrowseKey::Char(c) => {
                    if let Some(q) = &mut self.search {
                        q.push(c);
                    }
                    self.cursor = 0;
                    self.select_highlighted(catalog, sel);
                },
                _ => {},
            }
            return BrowseOutcome::Handled;
        }
        match key {
            BrowseKey::Tab => {
                self.commit(catalog, sel);
                self.field = self.field.cycle(1);
                BrowseOutcome::Handled
            },
            BrowseKey::BackTab => {
                self.commit(catalog, sel);
                self.field = self.field.cycle(-1);
                BrowseOutcome::Handled
            },
            BrowseKey::Left => {
                cycle_reciter(catalog, sel, -1);
                BrowseOutcome::Handled
            },
            BrowseKey::Right => {
                cycle_reciter(catalog, sel, 1);
                BrowseOutcome::Handled
            },
            BrowseKey::Up | BrowseKey::Down => {
                let down = matches!(key, BrowseKey::Down);
                if matches!(self.field, BrowseField::SurahList) {
                    self.move_cursor(catalog, sel, if down { 1 } else { -1 });
                } else {
                    self.commit(catalog, sel);
                    let field = self.field;
                    let delta: i32 = if down { -1 } else { 1 };
                    proof {
                        let v = clamp(field_value(*sel, field) + delta, 0, 65535) as u16;
                        lemma_nonempty_clampable(catalog.surahs@, with_field(*sel, field, v));
                    }
                    adjust_numeric_field(catalog, sel, field, delta);
                }
                BrowseOutcome::Handled
            },
            BrowseKey::Enter => {
                self.commit(catalog, sel);
                BrowseOutcome::Play { autoplay: true }
            },
            BrowseKey::Backspace => {
                if self.field.is_numeric() {
                    pop_char(&mut self.edit_buffer);
                    BrowseOutcome::Handled
                } else {
                    BrowseOutcome::Ignored
                }
            },
            BrowseKey::Char(c) => {
                if c == '/' {
                    self.field = BrowseField::SurahList;
                    self.search = Some(String::new());
                    self.cursor = 0;
                    BrowseOutcome::Handled
                } else if c == 'a' {
                    self.commit(catalog, sel);
                    BrowseOutcome::Play { autoplay: false }
                } else if c == 'A' {
                    self.commit(catalog, sel);
                    BrowseOutcome::AddToPlaylist
                } else if '0' <= c && c <= '9' && self.field.is_numeric() {
                    if self.edit_buffer.as_str().unicode_len() < 3 {
                        self.edit_buffer.push(c);
                    }
                    BrowseOutcome::Handled
                } else {
                    BrowseOutcome::Ignored
                }
            },
            BrowseKey::Esc | BrowseKey::Other => BrowseOutcome::Ignored,
        }
    }
}

/// Row of the first catalog surah numbered `number`, or 0 when there is none.
pub fn surah_row(catalog: &Catalog, number: u16) -> (r: usize)
    requires
        catalog.surahs@.len() < isize::MAX,
    ensures
        r == list_position(catalog.surahs@, number),
        r < isize::MAX,
{
    let mut i: usize = 0;
    while i < catalog.surahs.len()
        invariant
            i <= catalog.surahs@.len() < isize::MAX,
            forall|j: int| 0 <= j < i ==> catalog.surahs@[j].number != number,
        decreases catalog.surahs@.len() - i,
    {
        if catalog.surahs[i].number == number {
            proof {
                assert(is_first_surah(catalog.surahs@, number, i as int));
                let c = choose|k: int| is_first_surah(catalog.surahs@, number, k);
                crate::domain::catalog::lemma_first_surah_unique(catalog.surahs@, number, i as int, c);
            }
            return i;
        }
        i += 1;
    }
    proof {
        if exists|k: int| is_first_surah(catalog.surahs@, number, k) {
            let c = choose|k: int| is_first_surah(catalog.surahs@, number, k);
            assert(catalog.surahs@[c].number == number);
        }
    }
    0
}

} // verus!
