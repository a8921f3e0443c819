//! Tests for the playlist store and its display helpers.

use quran_tui::model::playlist::{Playlist, PlaylistItem, PlaylistStore};

fn item(surah: u16) -> PlaylistItem {
    PlaylistItem {
        reciter_id: "alafasy".into(),
        from_surah: surah,
        from_ayah: 1,
        to_surah: surah,
        to_ayah: 5,
    }
}

#[test]
fn create_then_delete_returns_to_empty() {
    let mut store = PlaylistStore::in_memory();
    assert_eq!(store.playlists.len(), 0);
    let id = store.create("New playlist");
    assert_eq!(store.playlists.len(), 1);
    assert_eq!(store.playlists[0].id, id);
    assert_eq!(store.playlists[0].name, "New playlist");
    assert!(store.playlists[0].items.is_empty());
    assert!(!id.is_empty());
    assert!(id.chars().all(|c| c.is_ascii_hexdigit()));
    store.delete(&id);
    assert_eq!(store.playlists.len(), 0);
}

#[test]
fn created_playlists_are_dated() {
    let mut store = PlaylistStore::in_memory();
    store.create("x");
    let shown = store.playlists[0].created_display();
    assert_eq!(shown.chars().count(), 16);
    assert_eq!(shown.chars().nth(10), Some(' '));
}

#[test]
fn create_with_given_id_and_time() {
    let mut store = PlaylistStore::in_memory();
    let id = store.create_with("Morning", "abc".into(), "2024-05-01T07:30:00Z".into());
    assert_eq!(id, "abc");
    assert_eq!(store.position("abc"), Some(0));
    assert_eq!(store.position("zzz"), None);
    assert_eq!(store.playlists[0].created_display(), "2024-05-01 07:30");
}

#[test]
fn created_display_of_a_short_timestamp() {
    let p = Playlist {
        id: "1".into(),
        name: "n".into(),
        created_at: "2024T1".into(),
        items: vec![],
    };
    assert_eq!(p.created_display(), "2024 1");
}

#[test]
fn rename_and_items_touch_only_the_matching_playlist() {
    let mut store = PlaylistStore::in_memory();
    store.create_with("A", "a".into(), "t".into());
    store.create_with("B", "b".into(), "t".into());
    store.rename("b", "Bee");
    assert_eq!(store.playlists[1].name, "Bee");
    assert_eq!(store.playlists[0].name, "A");
    store.add_item("a", item(18));
    store.add_item("a", item(67));
    assert_eq!(store.playlists[0].items, vec![item(18), item(67)]);
    assert!(store.playlists[1].items.is_empty());
    store.remove_item("a", 5);
    assert_eq!(store.playlists[0].items.len(), 2);
    store.remove_item("a", 0);
    assert_eq!(store.playlists[0].items, vec![item(67)]);
    store.rename("missing", "x");
    store.add_item("missing", item(1));
    assert_eq!(store.playlists.len(), 2);
}

#[test]
fn add_then_remove_item_restores_the_items() {
    let mut store = PlaylistStore::in_memory();
    store.create_with("A", "a".into(), "t".into());
    store.add_item("a", item(1));
    let before = store.playlists[0].items.clone();
    store.add_item("a", item(2));
    store.remove_item("a", 1);
    assert_eq!(store.playlists[0].items, before);
}

#[test]
fn delete_removes_every_playlist_with_the_id() {
    let mut store = PlaylistStore::in_memory();
    store.create_with("A", "a".into(), "t".into());
    store.create_with("B", "b".into(), "t".into());
    store.create_with("A2", "a".into(), "t".into());
    store.delete("a");
    assert_eq!(store.playlists.len(), 1);
    assert_eq!(store.playlists[0].id, "b");
}
