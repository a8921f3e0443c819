//! Named playlists — ordered queues of Quran selections, like a music playlist.
//!
//! Each playlist holds an ordered list of [`PlaylistItem`]s; one item is a full
//! Browse selection (reciter + surah range + ayah range). The store here is the
//! in-memory collection; saving it to disk happens at the application edge
//! after each change.

use vstd::prelude::*;

use crate::text::{hex, push_hex, str_eq};

verus! {

/// One entry in a playlist — a self-contained playback selection, equivalent to
/// a Browse range (reciter + surah span + ayah span).
#[derive(Debug, PartialEq)]
pub struct PlaylistItem {
    pub reciter_id: String,
    pub from_surah: u16,
    pub from_ayah: u16,
    pub to_surah: u16,
    pub to_ayah: u16,
}

impl Clone for PlaylistItem {
    fn clone(&self) -> (r: Self)
        ensures
            r == *self,
    {
        PlaylistItem {
            reciter_id: self.reciter_id.clone(),
            from_surah: self.from_surah,
            from_ayah: self.from_ayah,
            to_surah: self.to_surah,
            to_ayah: self.to_ayah,
        }
    }
}

/// A named, dated, ordered list of playback selections.
#[derive(Debug, Clone)]
pub struct Playlist {
    pub id: String,
    pub name: String,
    /// RFC3339 timestamp.
    pub created_at: String,
    pub items: Vec<PlaylistItem>,
}

/// `c`, with `'T'` shown as a space.
pub open spec fn display_char(c: char) -> char {
    if c == 'T' {
        ' '
    } else {
        c
    }
}

/// The first sixteen characters of `created_at` with `'T'` replaced by a space.
pub open spec fn created_display_spec(created_at: Seq<char>) -> Seq<char> {
    let n = if created_at.len() < 16 { created_at.len() } else { 16 };
    Seq::new(n, |i: int| display_char(created_at[i]))
}

impl Playlist {
    /// The timestamp as a compact `YYYY-MM-DD HH:MM` string.
    pub fn created_display(&self) -> (r: String)
        ensures
            r@ == created_display_spec(self.created_at@),
    {
        let n = self.created_at.as_str().unicode_len();
        let limit: usize = if n < 16 {
            n
        } else {
            16
        };
        let mut out = String::new();
        let mut i: usize = 0;
        while i < limit
            invariant
                i <= limit <= n == self.created_at@.len(),
                limit == (if n < 16 { n } else { 16 }),
                out@ == Seq::new(i as nat, |k: int| display_char(self.created_at@[k])),
            decreases limit - i,
        {
            let c = self.created_at.as_str().get_char(i);
            out.push(if c == 'T' {
                ' '
            } else {
                c
            });
            proof {
                assert(out@ =~= Seq::new((i + 1) as nat, |k: int| display_char(self.created_at@[k])));
            }
            i += 1;
        }
        out
    }
}

/// The collection of saved playlists.
pub struct PlaylistStore {
    pub playlists: Vec<Playlist>,
}

/// `i` is the first playlist in `ps` with id `id`.
pub open spec fn is_first_with_id(ps: Seq<Playlist>, id: Seq<char>, i: int) -> bool {
    &&& 0 <= i < ps.len()
    &&& ps[i].id@ == id
    &&& forall|j: int| 0 <= j < i ==> ps[j].id@ != id
}

/// No playlist in `ps` has id `id`.
pub open spec fn no_id(ps: Seq<Playlist>, id: Seq<char>) -> bool {
    forall|j: int| 0 <= j < ps.len() ==> ps[j].id@ != id
}

/// `new` is `old` with only the playlist at `i` changed, and that one keeps its
/// id and creation time.
pub open spec fn changed_only_at(old: Seq<Playlist>, new: Seq<Playlist>, i: int) -> bool {
    &&& new.len() == old.len()
    &&& forall|j: int| 0 <= j < old.len() && j != i ==> new[j] == old[j]
    &&& new[i].id == old[i].id
    &&& new[i].created_at == old[i].created_at
}

/// Calls `OffsetDateTime::now_utc()` and formats it as RFC3339 (empty on a
/// formatting error). Nothing is stated: the answer is the current time.
#[verifier::external_body]
fn now_rfc3339() -> String {
    time::OffsetDateTime::now_utc().format(&time::format_description::well_known::Rfc3339).unwrap_or_default()
}

/// Reads the system clock: nanoseconds since the Unix epoch, or 0 when the
/// clock reads before it. Nothing is stated: the answer is the current time.
#[verifier::external_body]
fn unix_nanos() -> u128 {
    std::time::SystemTime::now().duration_since(std::time::UNIX_EPOCH).map(|d| d.as_nanos()).unwrap_or(0)
}

/// A short, unique-enough hex id derived from the current time.
fn new_id() -> (r: String)
    ensures
        exists|n: nat| r@ == hex(n),
{
    let nanos = unix_nanos();
    let mut s = String::new();
    push_hex(&mut s, nanos);
    assert(s@ =~= hex(nanos as nat));
    s
}

/// Law: after deleting an id no playlist has it, and every playlist with
/// another id is kept, in order.
pub proof fn lemma_delete_removes_only_that_id(ps: Seq<Playlist>, id: Seq<char>)
    ensures
        no_id(ps.filter(|p: Playlist| p.id@ != id), id),
        forall|i: int|
            0 <= i < ps.len() && ps[i].id@ != id ==> ps.filter(|p: Playlist| p.id@ != id).contains(
                #[trigger] ps[i],
            ),
{
    broadcast use vstd::seq_lib::group_filter_ensures;
    let f = ps.filter(|p: Playlist| p.id@ != id);
    assert forall|j: int| 0 <= j < f.len() implies f[j].id@ != id by {
        ps.lemma_filter_pred(|p: Playlist| p.id@ != id, j);
    }
    assert forall|i: int| 0 <= i < ps.len() && ps[i].id@ != id implies f.contains(#[trigger] ps[i]) by {
        ps.lemma_filter_contains(|p: Playlist| p.id@ != id, i);
    }
}

/// Law: deleting a freshly created playlist (whose id no other playlist had)
/// gives back the playlists from before it was created.
pub proof fn lemma_create_then_delete(ps: Seq<Playlist>, created: Playlist)
    requires
        no_id(ps, created.id@),
    ensures
        ps.push(created).filter(|p: Playlist| p.id@ != created.id@) == ps,
{
    reveal_with_fuel(Seq::filter, 1);
    let pred = |p: Playlist| p.id@ != created.id@;
    assert(ps.push(created).drop_last() =~= ps);
    assert(ps.push(created).filter(pred) == ps.filter(pred));
    lemma_filter_keeps_all(ps, created);
}

proof fn lemma_filter_keeps_all(ps: Seq<Playlist>, created: Playlist)
    requires
        no_id(ps, created.id@),
    ensures
        ps.filter(|p: Playlist| p.id@ != created.id@) == ps,
    decreases ps.len(),
{
    reveal_with_fuel(Seq::filter, 1);
    if ps.len() > 0 {
        lemma_filter_keeps_all(ps.drop_last(), created);
        assert(ps.drop_last().push(ps.last()) =~= ps);
    } else {
        assert(ps.filter(|p: Playlist| p.id@ != created.id@) =~= ps);
    }
}

/// Law: removing the item just appended gives back the items from before.
pub proof fn lemma_add_then_remove_item(items: Seq<PlaylistItem>, item: PlaylistItem)
    ensures
        items.push(item).remove(items.len() as int) == items,
{
    assert(items.push(item).remove(items.len() as int) =~= items);
}

impl PlaylistStore {
    /// An ephemeral store, with no playlists.
    pub fn in_memory() -> (r: Self)
        ensures
            r.playlists@.len() == 0,
    {
        PlaylistStore { playlists: Vec::new() }
    }

    /// Position of the first playlist with the given id.
    pub fn position(&self, id: &str) -> (r: Option<usize>)
        ensures
            r is None <==> no_id(self.playlists@, id@),
            r matches Some(i) ==> is_first_with_id(self.playlists@, id@, i as int),
    {
        let mut i: usize = 0;
        while i < self.playlists.len()
            invariant
                i <= self.playlists@.len(),
                forall|j: int| 0 <= j < i ==> self.playlists@[j].id@ != id@,
            decreases self.playlists@.len() - i,
        {
            if str_eq(self.playlists[i].id.as_str(), id) {
                return Some(i);
            }
            i += 1;
        }
        None
    }

    /// Append a new, empty playlist with the given id and creation time, and
    /// return its id.
    pub fn create_with(&mut self, name: &str, id: String, created_at: String) -> (r: String)
        ensures
            r@ == id@,
            final(self).playlists@.len() == old(self).playlists@.len() + 1,
            final(self).playlists@.drop_last() == old(self).playlists@,
            final(self).playlists@.last().id@ == id@,
            final(self).playlists@.last().name@ == name@,
            final(self).playlists@.last().created_at@ == created_at@,
            final(self).playlists@.last().items@.len() == 0,
    {
        let r = id.clone();
        self.playlists.push(
            Playlist { id, name: String::from_str(name), created_at, items: Vec::new() },
        );
        r
    }

    /// Create a new, empty playlist dated now and return its id.
    pub fn create(&mut self, name: &str) -> (r: String)
        ensures
            exists|n: nat| r@ == hex(n),
            final(self).playlists@.len() == old(self).playlists@.len() + 1,
            final(self).playlists@.drop_last() == old(self).playlists@,
            final(self).playlists@.last().id@ == r@,
            final(self).playlists@.last().name@ == name@,
            final(self).playlists@.last().items@.len() == 0,
    {
        let id = new_id();
        let created_at = now_rfc3339();
        self.create_with(name, id, created_at)
    }

    /// Remove every playlist with the given id.
    pub fn delete(&mut self, id: &str)
        ensures
            final(self).playlists@ == old(self).playlists@.filter(|p: Playlist| p.id@ != id@),
    {
        let ghost all = self.playlists@;
        let ghost mut k: int = 0;
        let mut i: usize = 0;
        while i < self.playlists.len()
            invariant
                0 <= k <= all.len(),
                i == all.take(k).filter(|p: Playlist| p.id@ != id@).len(),
                self.playlists@ == all.take(k).filter(|p: Playlist| p.id@ != id@) + all.skip(k),
            decreases self.playlists@.len() - i,
        {
            let ghost kept = all.take(k).filter(|p: Playlist| p.id@ != id@);
            proof {
                assert(self.playlists@[i as int] == all[k]);
                assert(all.take(k + 1).drop_last() =~= all.take(k));
                assert(all.take(k + 1).last() == all[k]);
                reveal_with_fuel(Seq::filter, 1);
            }
            if str_eq(self.playlists[i].id.as_str(), id) {
                let ghost before = self.playlists@;
                self.playlists.remove(i);
                proof {
                    assert(self.playlists@ =~= kept + all.skip(k + 1));
                    k = k + 1;
                }
            } else {
                proof {
                    assert(kept.push(all[k]) + all.skip(k + 1) =~= kept + all.skip(k));
                    k = k + 1;
                }
                i += 1;
            }
        }
        proof {
            assert(all.skip(k).len() == 0);
            assert(k == all.len());
            assert(all.take(k) =~= all);
            assert(self.playlists@ =~= all.filter(|p: Playlist| p.id@ != id@));
        }
    }

    /// Rename the first playlist with the given id; no change if none has it.
    pub fn rename(&mut self, id: &str, name: &str)
        ensures
            no_id(old(self).playlists@, id@) ==> final(self).playlists@ == old(self).playlists@,
            forall|i: int|
                is_first_with_id(old(self).playlists@, id@, i) ==> {
                    &&& changed_only_at(old(self).playlists@, final(self).playlists@, i)
                    &&& final(self).playlists@[i].name@ == name@
                    &&& final(self).playlists@[i].items == old(self).playlists@[i].items
                },
    {
        if let Some(i) = self.position(id) {
            let mut p = self.playlists.remove(i);
            p.name = String::from_str(name);
            self.playlists.insert(i, p);
            proof {
                assert forall|j: int| is_first_with_id(old(self).playlists@, id@, j) implies j == i by {
                    if j < i {
                        assert(old(self).playlists@[j].id@ != id@);
                    } else if j > i {
                        assert(old(self).playlists@[i as int].id@ != id@);
                    }
                }
            }
        }
    }

    /// Append an item to the first playlist with the given id; no change if
    /// none has it.
    pub fn add_item(&mut self, id: &str, item: PlaylistItem)
        ensures
            no_id(old(self).playlists@, id@) ==> final(self).playlists@ == old(self).playlists@,
            forall|i: int|
                is_first_with_id(old(self).playlists@, id@, i) ==> {
                    &&& changed_only_at(old(self).playlists@, final(self).playlists@, i)
                    &&& final(self).playlists@[i].name == old(self).playlists@[i].name
                    &&& final(self).playlists@[i].items@ == old(self).playlists@[i].items@.push(item)
                },
    {
        if let Some(i) = self.position(id) {
            let mut p = self.playlists.remove(i);
            p.items.push(item);
            self.playlists.insert(i, p);
            proof {
                assert forall|j: int| is_first_with_id(old(self).playlists@, id@, j) implies j == i by {
                    if j < i {
                        assert(old(self).playlists@[j].id@ != id@);
                    } else if j > i {
                        assert(old(self).playlists@[i as int].id@ != id@);
                    }
                }
            }
        }
    }

    /// Remove the item at `index` from the first playlist with the given id; no
    /// change if none has that id or `index` is out of range.
    pub fn remove_item(&mut self, id: &str, index: usize)
        ensures
            no_id(old(self).playlists@, id@) ==> final(self).playlists@ == old(self).playlists@,
            forall|i: int|
                is_first_with_id(old(self).playlists@, id@, i) ==> {
                    &&& changed_only_at(old(self).playlists@, final(self).playlists@, i)
                    &&& final(self).playlists@[i].name == old(self).playlists@[i].name
                    &&& final(self).playlists@[i].items@ == if index < old(self).playlists@[i].items@.len() {
                        old(self).playlists@[i].items@.remove(index as int)
                    } else {
                        old(self).playlists@[i].items@
                    }
                },
    {
        if let Some(i) = self.position(id) {
            let mut p = self.playlists.remove(i);
            if index < p.items.len() {
                p.items.remove(index);
            }
            self.playlists.insert(i, p);
            proof {
                assert forall|j: int| is_first_with_id(old(self).playlists@, id@, j) implies j == i by {
                    if j < i {
                        assert(old(self).playlists@[j].id@ != id@);
                    } else if j > i {
                        assert(old(self).playlists@[i as int].id@ != id@);
                    }
                }
            }
        }
    }
}

} // verus!
