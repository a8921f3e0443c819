//! Tests for the Browse, Playlists and Outputs tab state machines and the
//! global keys, driven key by key.

use quran_tui::app::browse::{BrowseKey, BrowseOutcome, BrowseState};
use quran_tui::app::keys::{global_action, GlobalAction, GlobalKey};
use quran_tui::app::outputs::{plan_delete_output, OutputsAction, OutputsKey, OutputsTab};
use quran_tui::app::playlists::{
    add_selection_to_playlist, confirm_modal, create_playlist_modal, delete_at_cursor, modal_key, DeleteOutcome,
    ModalKey, ModalKeyOutcome, PlaylistsTab,
};
use quran_tui::app::{BrowseField, Modal, OutputsFocus, PlaylistPane, Tab, ToastKind};
use quran_tui::domain::catalog::{Catalog, Reciter, Surah};
use quran_tui::model::playlist::{PlaylistItem, PlaylistStore};

fn surah(number: u16, name: &str, ayah_count: u16) -> Surah {
    Surah {
        number,
        name_transliterated: name.to_string(),
        name_arabic: String::new(),
        ayah_count,
        revelation_place: "Meccan".into(),
    }
}

fn reciter(id: &str) -> Reciter {
    Reciter {
        id: id.to_string(),
        display_name: id.to_string(),
        file_slug: id.to_string(),
        per_ayah_directory_slug: format!("{id}_64kbps"),
    }
}

fn catalog() -> Catalog {
    let mut surahs = Vec::new();
    for n in 1..=114u16 {
        surahs.push(match n {
            1 => surah(1, "Al-Fatihah", 7),
            18 => surah(18, "Al-Kahf", 110),
            67 => surah(67, "Al-Mulk", 30),
            112 => surah(112, "Al-Ikhlas", 4),
            _ => surah(n, &format!("Surah {n}"), 10),
        });
    }
    Catalog { surahs, reciters: vec![reciter("alafasy"), reciter("husary")] }
}

fn start() -> PlaylistItem {
    PlaylistItem { reciter_id: "alafasy".into(), from_surah: 1, from_ayah: 1, to_surah: 1, to_ayah: 7 }
}

fn search(state: &mut BrowseState, cat: &Catalog, sel: &mut PlaylistItem, query: &str) {
    assert_eq!(state.handle_key(cat, sel, BrowseKey::Char('/'), false), BrowseOutcome::Handled);
    assert!(state.search.is_some());
    for c in query.chars() {
        state.handle_key(cat, sel, BrowseKey::Char(c), false);
    }
    state.handle_key(cat, sel, BrowseKey::Esc, false);
}

#[test]
fn browse_search_selects_a_surah() {
    let cat = catalog();
    let mut sel = start();
    let mut state = BrowseState::new(0);
    search(&mut state, &cat, &mut sel, "kahf");
    assert!(state.search.is_none());
    assert_eq!(sel.from_surah, 18);
    assert_eq!(sel.to_surah, 18);
    assert_eq!(sel.to_ayah, 110);
    assert_eq!(state.cursor, 17);
}

#[test]
fn numeric_field_edits_are_clamped() {
    let cat = catalog();
    let mut sel = start();
    let mut state = BrowseState::new(0);
    search(&mut state, &cat, &mut sel, "fatihah");
    assert_eq!(sel.from_surah, 1);
    state.handle_key(&cat, &mut sel, BrowseKey::Tab, false);
    state.handle_key(&cat, &mut sel, BrowseKey::Tab, false);
    assert_eq!(state.field, BrowseField::FromAyah);
    state.handle_key(&cat, &mut sel, BrowseKey::Char('9'), false);
    state.handle_key(&cat, &mut sel, BrowseKey::Char('9'), false);
    state.handle_key(&cat, &mut sel, BrowseKey::Tab, false);
    // Al-Fatihah has 7 ayahs, so 99 clamps to 7.
    assert_eq!(sel.from_ayah, 7);
}

#[test]
fn reciter_cycles_with_arrow_keys() {
    let cat = catalog();
    let mut sel = start();
    let mut state = BrowseState::new(0);
    let first = sel.reciter_id.clone();
    state.handle_key(&cat, &mut sel, BrowseKey::Right, false);
    assert_ne!(first, sel.reciter_id);
}

#[test]
fn browse_keys_play_and_queue() {
    let cat = catalog();
    let mut sel = start();
    let mut state = BrowseState::new(0);
    assert_eq!(state.handle_key(&cat, &mut sel, BrowseKey::Enter, false), BrowseOutcome::Play { autoplay: true });
    assert_eq!(state.handle_key(&cat, &mut sel, BrowseKey::Char('a'), false), BrowseOutcome::Play { autoplay: false });
    assert_eq!(state.handle_key(&cat, &mut sel, BrowseKey::Char('A'), false), BrowseOutcome::AddToPlaylist);
    // Digits on the surah list are not Browse keys.
    assert_eq!(state.handle_key(&cat, &mut sel, BrowseKey::Char('3'), false), BrowseOutcome::Ignored);
    // Down moves through the list and selects.
    state.handle_key(&cat, &mut sel, BrowseKey::Down, false);
    assert_eq!((state.cursor, sel.from_surah, sel.to_ayah), (1, 2, 10));
    // Up on a numeric field steps it.
    state.field = BrowseField::ToAyah;
    state.handle_key(&cat, &mut sel, BrowseKey::Down, false);
    assert_eq!(sel.to_ayah, 9);
    // At most three digits are typed.
    for _ in 0..5 {
        state.handle_key(&cat, &mut sel, BrowseKey::Char('1'), false);
    }
    assert_eq!(state.edit_buffer, "111");
    state.handle_key(&cat, &mut sel, BrowseKey::Backspace, false);
    assert_eq!(state.edit_buffer, "11");
}

#[test]
fn ctrl_chords_pass_through_the_search() {
    let cat = catalog();
    let mut sel = start();
    let mut state = BrowseState::new(0);
    state.handle_key(&cat, &mut sel, BrowseKey::Char('/'), false);
    assert_eq!(state.handle_key(&cat, &mut sel, BrowseKey::Char('c'), true), BrowseOutcome::Ignored);
    assert_eq!(state.search.as_deref(), Some(""));
}

#[test]
fn tabs_switch_with_number_keys() {
    assert_eq!(global_action(GlobalKey::Char('3'), false, Tab::NowPlaying), GlobalAction::SelectTab(Tab::Outputs));
    assert_eq!(global_action(GlobalKey::Char('1'), false, Tab::Outputs), GlobalAction::SelectTab(Tab::NowPlaying));
}

#[test]
fn global_keys() {
    assert_eq!(global_action(GlobalKey::Char('q'), false, Tab::Browse), GlobalAction::Quit);
    assert_eq!(global_action(GlobalKey::Char('c'), true, Tab::Browse), GlobalAction::Quit);
    assert_eq!(global_action(GlobalKey::Char('c'), false, Tab::Browse), GlobalAction::Nothing);
    assert_eq!(global_action(GlobalKey::Char('s'), false, Tab::Browse), GlobalAction::Nothing);
    assert_eq!(global_action(GlobalKey::Char('s'), false, Tab::NowPlaying), GlobalAction::StopFocused);
    assert_eq!(global_action(GlobalKey::Char('='), false, Tab::NowPlaying), GlobalAction::VolumeUp);
    assert_eq!(global_action(GlobalKey::BackTab, false, Tab::NowPlaying), GlobalAction::CycleTab(-1));
}

#[test]
fn outputs_tab_focus_toggles_and_default_is_undeletable() {
    let mut tab = OutputsTab::new();
    let mut focused = 0usize;
    assert_eq!(tab.focus, OutputsFocus::Channels);
    assert_eq!(tab.handle_key(OutputsKey::Tab, &mut focused, 1, 0), OutputsAction::Handled);
    assert_eq!(tab.focus, OutputsFocus::Devices);
    tab.handle_key(OutputsKey::Tab, &mut focused, 1, 0);
    assert_eq!(tab.focus, OutputsFocus::Channels);
    assert_eq!(tab.handle_key(OutputsKey::Delete, &mut focused, 1, 0), OutputsAction::DeleteFocused);
    let refused = plan_delete_output(&[0], 0);
    assert_eq!(refused, Err(("The default output cannot be removed".to_string(), ToastKind::Warn)));
    assert_eq!(plan_delete_output(&[0, 4], 1), Ok(1));
}

#[test]
fn outputs_cursor_moves_and_binds() {
    let mut tab = OutputsTab::new();
    let mut focused = 0usize;
    tab.handle_key(OutputsKey::Down, &mut focused, 3, 0);
    tab.handle_key(OutputsKey::Down, &mut focused, 3, 0);
    tab.handle_key(OutputsKey::Down, &mut focused, 3, 0);
    assert_eq!(focused, 2);
    tab.handle_key(OutputsKey::Tab, &mut focused, 3, 2);
    assert_eq!(tab.handle_key(OutputsKey::Enter, &mut focused, 3, 2), OutputsAction::Bind(0));
    tab.handle_key(OutputsKey::Down, &mut focused, 3, 2);
    assert_eq!(tab.device_cursor, 1);
    tab.after_refresh(1);
    assert_eq!(tab.device_cursor, 0);
}

#[test]
fn create_then_delete_playlist_via_modals() {
    let mut store = PlaylistStore::in_memory();
    let mut tab = PlaylistsTab::new();
    assert_eq!(store.playlists.len(), 0);
    let mut modal = create_playlist_modal(&store);
    assert_eq!(modal_key(&mut modal, ModalKey::Enter), ModalKeyOutcome::Confirm);
    let (text, kind) = confirm_modal(&mut store, &mut tab, modal);
    assert_eq!(text, "Created playlist \"Playlist 1\"");
    assert_eq!(kind, ToastKind::Info);
    assert_eq!(store.playlists.len(), 1);
    let DeleteOutcome::Ask(mut confirm) = delete_at_cursor(&mut store, &mut tab) else {
        panic!("expected a confirmation");
    };
    assert_eq!(modal_key(&mut confirm, ModalKey::Char('y')), ModalKeyOutcome::Confirm);
    confirm_modal(&mut store, &mut tab, confirm);
    assert_eq!(store.playlists.len(), 0);
}

#[test]
fn text_modal_edits_and_rejects_blank_names() {
    let mut store = PlaylistStore::in_memory();
    let mut tab = PlaylistsTab::new();
    let mut modal = Modal::Text {
        title: "New playlist".into(),
        input: "ab".into(),
        action: quran_tui::app::TextAction::CreatePlaylist,
    };
    modal_key(&mut modal, ModalKey::Backspace);
    modal_key(&mut modal, ModalKey::Backspace);
    modal_key(&mut modal, ModalKey::Char(' '));
    let Modal::Text { input, .. } = &modal else { panic!("text modal") };
    assert_eq!(input, " ");
    let (text, kind) = confirm_modal(&mut store, &mut tab, modal);
    assert_eq!((text.as_str(), kind), ("Name cannot be empty", ToastKind::Warn));
    assert!(store.playlists.is_empty());
}

#[test]
fn add_browse_selection_appends_a_playlist_track() {
    let cat = catalog();
    let mut store = PlaylistStore::in_memory();
    let mut tab = PlaylistsTab::new();
    let mut modal = create_playlist_modal(&store);
    modal_key(&mut modal, ModalKey::Enter);
    confirm_modal(&mut store, &mut tab, modal);
    assert_eq!(store.playlists.len(), 1);
    assert!(store.playlists[0].items.is_empty());

    let mut sel = start();
    let mut state = BrowseState::new(0);
    search(&mut state, &cat, &mut sel, "mulk");
    assert_eq!(sel.from_surah, 67);

    assert_eq!(state.handle_key(&cat, &mut sel, BrowseKey::Char('A'), false), BrowseOutcome::AddToPlaylist);
    add_selection_to_playlist(&mut store, &tab, &sel);
    let items = &store.playlists[0].items;
    assert_eq!(items.len(), 1);
    assert_eq!(items[0].from_surah, 67);
    assert_eq!(items[0].to_surah, 67);
}

#[test]
fn removing_tracks_keeps_the_cursor_on_the_list() {
    let mut store = PlaylistStore::in_memory();
    store.create_with("A", "a".into(), "t".into());
    store.add_item("a", start());
    store.add_item("a", start());
    let mut tab = PlaylistsTab::new();
    tab.toggle_pane();
    assert_eq!(tab.pane, PlaylistPane::Items);
    tab.nav(&store, 1);
    assert_eq!(tab.item_cursor, 1);
    let DeleteOutcome::Notice(text, _) = delete_at_cursor(&mut store, &mut tab) else { panic!("notice") };
    assert_eq!(text, "Track removed");
    assert_eq!(tab.item_cursor, 0);
    delete_at_cursor(&mut store, &mut tab);
    let DeleteOutcome::Notice(text, kind) = delete_at_cursor(&mut store, &mut tab) else { panic!("notice") };
    assert_eq!((text.as_str(), kind), ("No track to remove", ToastKind::Warn));
}
