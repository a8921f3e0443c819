//! The Playlists tab: its cursors, its modal dialogs, and what each key does
//! to the playlist store.

use vstd::prelude::*;

use crate::app::{ConfirmAction, Modal, PlaylistPane, TextAction, ToastKind};
use crate::model::playlist::{changed_only_at, is_first_with_id, no_id, Playlist, PlaylistItem, PlaylistStore};
use crate::text::{clamp, pop_char, push_decimal, trim_whitespace, trim_ws};

verus! {

/// Where the Playlists tab's cursors stand.
#[derive(Debug, Clone, Copy, PartialEq, Eq)]
pub struct PlaylistsTab {
    /// Cursor into the playlist list (left pane).
    pub cursor: usize,
    /// Cursor into the selected playlist's tracks (right pane).
    pub item_cursor: usize,
    /// Which pane has focus.
    pub pane: PlaylistPane,
}

/// A key as a modal dialog sees it.
#[derive(Debug, Clone, Copy, PartialEq, Eq)]
pub enum ModalKey {
    Esc,
    Enter,
    Backspace,
    Char(char),
    Other,
}

/// What a key press on an open modal leads to.
#[derive(Debug, Clone, Copy, PartialEq, Eq)]
pub enum ModalKeyOutcome {
    /// The modal stays open (possibly with edited input).
    Stay,
    /// The modal was dismissed without acting.
    Dismissed,
    /// The modal's action should be applied (see [`confirm_modal`]).
    Confirm,
}

/// Number of tracks in playlist `cursor` of `ps` (0 when there is none).
pub open spec fn selected_len(ps: Seq<Playlist>, cursor: usize) -> int {
    if cursor < ps.len() {
        ps[cursor as int].items@.len() as int
    } else {
        0
    }
}

impl PlaylistsTab {
    /// The tab as it opens: first playlist, first track, left pane.
    pub fn new() -> (r: Self)
        ensures
            r.cursor == 0,
            r.item_cursor == 0,
            r.pane == PlaylistPane::Playlists,
    {
        PlaylistsTab { cursor: 0, item_cursor: 0, pane: PlaylistPane::Playlists }
    }

    /// Switch focus to the other pane.
    pub fn toggle_pane(&mut self)
        ensures
            final(self).pane != old(self).pane,
            final(self).cursor == old(self).cursor,
            final(self).item_cursor == old(self).item_cursor,
    {
        self.pane = self.pane.toggled();
    }

    /// Number of tracks in the selected playlist.
    pub fn selected_playlist_len(&self, store: &PlaylistStore) -> (r: usize)
        ensures
            r == selected_len(store.playlists@, self.cursor),
    {
        if self.cursor < store.playlists.len() {
            store.playlists[self.cursor].items.len()
        } else {
            0
        }
    }

    /// Move the cursor of the focused pane by `delta`, clamped to its list;
    /// moving to another playlist re-anchors the track cursor at the top. No
    /// change when the list is empty.
    pub fn nav(&mut self, store: &PlaylistStore, delta: isize)
        requires
            store.playlists@.len() <= isize::MAX,
            old(self).cursor <= isize::MAX,
            old(self).item_cursor <= isize::MAX,
            isize::MIN <= old(self).cursor + delta <= isize::MAX,
            isize::MIN <= old(self).item_cursor + delta <= isize::MAX,
            forall|i: int| 0 <= i < store.playlists@.len() ==> (#[trigger] store.playlists@[i]).items@.len() <= isize::MAX,
        ensures
            final(self).pane == old(self).pane,
            old(self).pane == PlaylistPane::Playlists && store.playlists@.len() > 0 ==> {
                &&& final(self).cursor == clamp(old(self).cursor + delta, 0, store.playlists@.len() - 1)
                &&& final(self).item_cursor == 0
            },
            old(self).pane == PlaylistPane::Items && selected_len(store.playlists@, old(self).cursor) > 0 ==> {
                &&& final(self).cursor == old(self).cursor
                &&& final(self).item_cursor == clamp(
                    old(self).item_cursor + delta,
                    0,
                    selected_len(store.playlists@, old(self).cursor) - 1,
                )
            },
            (old(self).pane == PlaylistPane::Playlists && store.playlists@.len() == 0) || (old(self).pane
                == PlaylistPane::Items && selected_len(store.playlists@, old(self).cursor) == 0)
                ==> *final(self) == *old(self),
    {
        match self.pane {
            PlaylistPane::Playlists => {
                let len = store.playlists.len();
                if len == 0 {
                    return;
                }
                self.cursor = crate::app::step_cursor(self.cursor, delta, len);
                self.item_cursor = 0;
            },
            PlaylistPane::Items => {
                let len = self.selected_playlist_len(store);
                if len == 0 {
                    return;
                }
                self.item_cursor = crate::app::step_cursor(self.item_cursor, delta, len);
            },
        }
    }
}

/// The new-playlist dialog, offering the name `"Playlist <n+1>"` for a store
/// of `n` playlists.
pub fn create_playlist_modal(store: &PlaylistStore) -> (r: Modal)
    requires
        store.playlists@.len() < usize::MAX,
    ensures
        r matches Modal::Text { title, input, action } && title@ == "New playlist"@ && input@ == "Playlist "@
            + crate::text::decimal(store.playlists@.len() + 1) && action is CreatePlaylist,
{
    let mut input = String::from_str("Playlist ");
    push_decimal(&mut input, (store.playlists.len() + 1) as u64);
    Modal::Text { title: String::from_str("New playlist"), input, action: TextAction::CreatePlaylist }
}

/// The rename dialog for the selected playlist, pre-filled with its name; a
/// warning when no playlist is selected.
pub fn rename_playlist_modal(store: &PlaylistStore, tab: &PlaylistsTab) -> (r: Result<Modal, (String, ToastKind)>)
    ensures
        tab.cursor < store.playlists@.len() ==> match r {
            Ok(Modal::Text { title, input, action: TextAction::RenamePlaylist(id) }) => {
                &&& title@ == "Rename playlist"@
                &&& input@ == store.playlists@[tab.cursor as int].name@
                &&& id@ == store.playlists@[tab.cursor as int].id@
            },
            _ => false,
        },
        tab.cursor >= store.playlists@.len() ==> (r matches Err((t, k)) && t@ == "No playlist selected"@ && k
            == ToastKind::Warn),
{
    if tab.cursor >= store.playlists.len() {
        return Err((String::from_str("No playlist selected"), ToastKind::Warn));
    }
    let p = &store.playlists[tab.cursor];
    Ok(
        Modal::Text {
            title: String::from_str("Rename playlist"),
            input: p.name.clone(),
            action: TextAction::RenamePlaylist(p.id.clone()),
        },
    )
}

/// What `d` on the Playlists tab leads to.
pub enum DeleteOutcome {
    /// Ask before deleting the selected playlist.
    Ask(Modal),
    /// Show a message (a track was removed, or there was nothing to remove).
    Notice(String, ToastKind),
    /// Nothing happens.
    Nothing,
}

/// `d` — on the playlist pane, ask to delete the selected playlist; on the
/// track pane, remove the selected track at once and keep the track cursor on
/// the list.
pub fn delete_at_cursor(store: &mut PlaylistStore, tab: &mut PlaylistsTab) -> (r: DeleteOutcome)
    ensures
        final(tab).cursor == old(tab).cursor,
        final(tab).pane == old(tab).pane,
        old(tab).pane == PlaylistPane::Playlists ==> {
            &&& *final(store) == *old(store)
            &&& final(tab).item_cursor == old(tab).item_cursor
            &&& if old(tab).cursor < old(store).playlists@.len() {
                let p = old(store).playlists@[old(tab).cursor as int];
                match r {
                    DeleteOutcome::Ask(Modal::Confirm { title, message, action: ConfirmAction::DeletePlaylist(id) }) => {
                        &&& title@ == "Delete playlist"@
                        &&& message@ == "Delete \""@ + p.name@ + "\"?"@
                        &&& id@ == p.id@
                    },
                    _ => false,
                }
            } else {
                r matches DeleteOutcome::Notice(t, k) && t@ == "No playlist selected"@ && k == ToastKind::Warn
            }
        },
        old(tab).pane == PlaylistPane::Items && old(tab).cursor >= old(store).playlists@.len() ==> {
            &&& *final(store) == *old(store)
            &&& *final(tab) == *old(tab)
            &&& r is Nothing
        },
        old(tab).pane == PlaylistPane::Items && old(tab).cursor < old(store).playlists@.len()
            && old(store).playlists@[old(tab).cursor as int].items@.len() == 0 ==> {
            &&& *final(store) == *old(store)
            &&& *final(tab) == *old(tab)
            &&& r matches DeleteOutcome::Notice(t, k) && t@ == "No track to remove"@ && k == ToastKind::Warn
        },
        old(tab).pane == PlaylistPane::Items && old(tab).cursor < old(store).playlists@.len()
            && old(store).playlists@[old(tab).cursor as int].items@.len() > 0 ==> {
            let id = old(store).playlists@[old(tab).cursor as int].id;
            &&& forall|i: int|
                is_first_with_id(old(store).playlists@, id@, i) ==> {
                    &&& changed_only_at(
                        old(store).playlists@,
                        final(store).playlists@,
                        i,
                    )
                    &&& final(store).playlists@[i].name == old(store).playlists@[i].name
                    &&& final(store).playlists@[i].items@ == if old(tab).item_cursor
                        < old(store).playlists@[i].items@.len() {
                        old(store).playlists@[i].items@.remove(old(tab).item_cursor as int)
                    } else {
                        old(store).playlists@[i].items@
                    }
                }
            &&& final(tab).item_cursor == (if old(tab).item_cursor < selected_len(
                final(store).playlists@,
                old(tab).cursor,
            ) {
                old(tab).item_cursor as int
            } else if selected_len(final(store).playlists@, old(tab).cursor) > 0 {
                selected_len(final(store).playlists@, old(tab).cursor) - 1
            } else {
                0
            })
            &&& r matches DeleteOutcome::Notice(t, k) && t@ == "Track removed"@ && k == ToastKind::Info
        },
{
    match tab.pane {
        PlaylistPane::Playlists => {
            if tab.cursor >= store.playlists.len() {
                return DeleteOutcome::Notice(String::from_str("No playlist selected"), ToastKind::Warn);
            }
            let p = &store.playlists[tab.cursor];
            let mut message = String::from_str("Delete \"");
            message.append(p.name.as_str());
            message.append("\"?");
            DeleteOutcome::Ask(
                Modal::Confirm {
                    title: String::from_str("Delete playlist"),
                    message,
                    action: ConfirmAction::DeletePlaylist(p.id.clone()),
                },
            )
        },
        PlaylistPane::Items => {
            if tab.cursor >= store.playlists.len() {
                return DeleteOutcome::Nothing;
            }
            if store.playlists[tab.cursor].items.len() == 0 {
                return DeleteOutcome::Notice(String::from_str("No track to remove"), ToastKind::Warn);
            }
            let id = store.playlists[tab.cursor].id.clone();
            store.remove_item(id.as_str(), tab.item_cursor);
            let new_len = tab.selected_playlist_len(store);
            let last: usize = if new_len > 0 {
                new_len - 1
            } else {
                0
            };
            if tab.item_cursor > last {
                tab.item_cursor = last;
            }
            DeleteOutcome::Notice(String::from_str("Track removed"), ToastKind::Info)
        },
    }
}

/// Apply an open modal's action. A text dialog whose input trims to nothing
/// only warns; a new playlist gets the trimmed name and becomes selected; a
/// rename renames; a confirmed delete removes the playlist and keeps the
/// cursor on the list. Returns the message to show.
pub fn confirm_modal(store: &mut PlaylistStore, tab: &mut PlaylistsTab, modal: Modal) -> (r: (String, ToastKind))
    ensures
        match modal {
            Modal::Text { input, action, .. } => if trim_ws(input@).len() == 0 {
                &&& *final(store) == *old(store)
                &&& *final(tab) == *old(tab)
                &&& r.0@ == "Name cannot be empty"@ && r.1 == ToastKind::Warn
            } else {
                match action {
                    TextAction::CreatePlaylist => {
                        &&& final(store).playlists@.len() == old(store).playlists@.len() + 1
                        &&& final(store).playlists@.drop_last() == old(store).playlists@
                        &&& final(store).playlists@.last().name@ == trim_ws(input@)
                        &&& final(store).playlists@.last().items@.len() == 0
                        &&& is_first_with_id(final(store).playlists@, final(store).playlists@.last().id@, final(tab).cursor as int)
                        &&& final(tab).item_cursor == 0
                        &&& final(tab).pane == PlaylistPane::Playlists
                        &&& r.0@ == "Created playlist \""@ + trim_ws(input@) + "\""@ && r.1 == ToastKind::Info
                    },
                    TextAction::RenamePlaylist(id) => {
                        &&& no_id(old(store).playlists@, id@) ==> final(store).playlists@
                            == old(store).playlists@
                        &&& forall|i: int|
                            is_first_with_id(old(store).playlists@, id@, i) ==> {
                                &&& changed_only_at(
                                    old(store).playlists@,
                                    final(store).playlists@,
                                    i,
                                )
                                &&& final(store).playlists@[i].name@ == trim_ws(input@)
                                &&& final(store).playlists@[i].items == old(store).playlists@[i].items
                            }
                        &&& *final(tab) == *old(tab)
                        &&& r.0@ == "Playlist renamed"@ && r.1 == ToastKind::Info
                    },
                }
            },
            Modal::Confirm { action: ConfirmAction::DeletePlaylist(id), .. } => {
                &&& final(store).playlists@ == old(store).playlists@.filter(|p: Playlist| p.id@ != id@)
                &&& final(tab).cursor == (if old(tab).cursor < final(store).playlists@.len() {
                    old(tab).cursor as int
                } else if final(store).playlists@.len() > 0 {
                    final(store).playlists@.len() - 1
                } else {
                    0
                })
                &&& final(tab).item_cursor == 0
                &&& final(tab).pane == old(tab).pane
                &&& r.0@ == "Playlist deleted"@ && r.1 == ToastKind::Info
            },
        },
{
    match modal {
        Modal::Text { input, action, .. } => {
            let name = trim_whitespace(input.as_str());
            if name.unicode_len() == 0 {
                return (String::from_str("Name cannot be empty"), ToastKind::Warn);
            }
            match action {
                TextAction::CreatePlaylist => {
                    let id = store.create(name.as_str());
                    tab.cursor = match store.position(id.as_str()) {
                        Some(i) => i,
                        None => 0,
                    };
                    tab.item_cursor = 0;
                    tab.pane = PlaylistPane::Playlists;
                    let mut t = String::from_str("Created playlist \"");
                    t.append(name.as_str());
                    t.append("\"");
                    (t, ToastKind::Info)
                },
                TextAction::RenamePlaylist(id) => {
                    store.rename(id.as_str(), name.as_str());
                    (String::from_str("Playlist renamed"), ToastKind::Info)
                },
            }
        },
        Modal::Confirm { action, .. } => match action {
            ConfirmAction::DeletePlaylist(id) => {
                store.delete(id.as_str());
                let len = store.playlists.len();
                let last: usize = if len > 0 {
                    len - 1
                } else {
                    0
                };
                if tab.cursor > last {
                    tab.cursor = last;
                }
                tab.item_cursor = 0;
                (String::from_str("Playlist deleted"), ToastKind::Info)
            },
        },
    }
}

/// Feed a key to an open modal: Esc dismisses; Enter confirms; on a yes/no
/// dialog `n` dismisses and `y` confirms; on a text dialog Backspace deletes
/// the last character and any other character is typed.
pub fn modal_key(modal: &mut Modal, key: ModalKey) -> (r: ModalKeyOutcome)
    ensures
        key == ModalKey::Esc ==> r == ModalKeyOutcome::Dismissed && *final(modal) == *old(modal),
        key == ModalKey::Enter ==> r == ModalKeyOutcome::Confirm && *final(modal) == *old(modal),
        *old(modal) is Confirm ==> match key {
            ModalKey::Char(c) => if c == 'n' {
                r == ModalKeyOutcome::Dismissed
            } else if c == 'y' {
                r == ModalKeyOutcome::Confirm
            } else {
                r == ModalKeyOutcome::Stay
            },
            ModalKey::Backspace | ModalKey::Other => r == ModalKeyOutcome::Stay,
            _ => true,
        } && *final(modal) == *old(modal),
        *old(modal) matches Modal::Text { title, input, action } ==> match key {
            ModalKey::Backspace => r == ModalKeyOutcome::Stay && match *final(modal) {
                Modal::Text { title: t2, input: i2, action: a2 } => {
                    &&& t2 == title
                    &&& a2 == action
                    &&& i2@ == (if input@.len() > 0 {
                        input@.drop_last()
                    } else {
                        input@
                    })
                },
                _ => false,
            },
            ModalKey::Char(c) => r == ModalKeyOutcome::Stay && match *final(modal) {
                Modal::Text { title: t2, input: i2, action: a2 } => {
                    &&& t2 == title
                    &&& a2 == action
                    &&& i2@ == input@.push(c)
                },
                _ => false,
            },
            ModalKey::Other => r == ModalKeyOutcome::Stay && *final(modal) == *old(modal),
            _ => true,
        },
{
    match key {
        ModalKey::Esc => ModalKeyOutcome::Dismissed,
        ModalKey::Enter => ModalKeyOutcome::Confirm,
        ModalKey::Backspace => {
            if let Modal::Text { input, .. } = modal {
                pop_char(input);
            }
            ModalKeyOutcome::Stay
        },
        ModalKey::Char(c) => {
            match modal {
                Modal::Text { input, .. } => {
                    input.push(c);
                    ModalKeyOutcome::Stay
                },
                Modal::Confirm { .. } => {
                    if c == 'n' {
                        ModalKeyOutcome::Dismissed
                    } else if c == 'y' {
                        ModalKeyOutcome::Confirm
                    } else {
                        ModalKeyOutcome::Stay
                    }
                },
            }
        },
        ModalKey::Other => ModalKeyOutcome::Stay,
    }
}

/// `a` in the Playlists tab — the selected playlist's name, to compose a track
/// for it in Browse; a warning when there is no playlist.
pub fn jump_to_browse_notice(store: &PlaylistStore, tab: &PlaylistsTab) -> (r: Result<(String, ToastKind), (String, ToastKind)>)
    ensures
        tab.cursor < store.playlists@.len() ==> (r matches Ok((t, k)) && t@ == "Pick a range, then press  A  to add it to \""@
            + store.playlists@[tab.cursor as int].name@ + "\""@ && k == ToastKind::Info),
        tab.cursor >= store.playlists@.len() ==> (r matches Err((t, k)) && t@
            == "Create a playlist first \u{2014} press n"@ && k == ToastKind::Warn),
{
    if tab.cursor >= store.playlists.len() {
        return Err((String::from_str("Create a playlist first \u{2014} press n"), ToastKind::Warn));
    }
    let mut t = String::from_str("Pick a range, then press  A  to add it to \"");
    t.append(store.playlists[tab.cursor].name.as_str());
    t.append("\"");
    Ok((t, ToastKind::Info))
}

/// `A` in Browse — append the selection to the selected playlist as a track.
pub fn add_selection_to_playlist(store: &mut PlaylistStore, tab: &PlaylistsTab, sel: &PlaylistItem) -> (r: (
    String,
    ToastKind,
))
    ensures
        tab.cursor >= old(store).playlists@.len() ==> {
            &&& *final(store) == *old(store)
            &&& r.0@ == "No playlist yet \u{2014} create one on the Playlists tab (4)"@ && r.1 == ToastKind::Warn
        },
        tab.cursor < old(store).playlists@.len() ==> {
            let p = old(store).playlists@[tab.cursor as int];
            &&& forall|i: int|
                is_first_with_id(old(store).playlists@, p.id@, i) ==> {
                    &&& changed_only_at(old(store).playlists@, final(store).playlists@, i)
                    &&& final(store).playlists@[i].name == old(store).playlists@[i].name
                    &&& final(store).playlists@[i].items@ == old(store).playlists@[i].items@.push(*sel)
                }
            &&& r.0@ == "Added a track to \""@ + p.name@ + "\""@ && r.1 == ToastKind::Info
        },
{
    if tab.cursor >= store.playlists.len() {
        return (String::from_str("No playlist yet \u{2014} create one on the Playlists tab (4)"), ToastKind::Warn);
    }
    let id = store.playlists[tab.cursor].id.clone();
    let name = store.playlists[tab.cursor].name.clone();
    store.add_item(id.as_str(), sel.clone());
    let mut t = String::from_str("Added a track to \"");
    t.append(name.as_str());
    t.append("\"");
    (t, ToastKind::Info)
}

} // verus!
