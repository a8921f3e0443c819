//! Playback planning: what a play request loads into an output's engine.
//!
//! A Browse selection or a playlist is turned into segments, then into track
//! paths and labels; the files already on disk decide whether playback starts
//! from local files, from a whole-surah file, or after a download.

use vstd::prelude::*;

use crate::app::ToastKind;
use crate::content::resolver::{
    files_of, files_view, labels_of, lemma_missing_files_sound, missing_among, missing_files, observed_on_disk, paths_of, per_ayah_labels,
    per_ayah_paths, resolve, resolve_candidates, resolves_to, single_full_surah, strings_view, whole_surah_path_spec, FileSpec, MissingFile,
    Resolution,
};
use crate::domain::catalog::{first_reciter, first_surah, Catalog, Reciter, Surah};
use crate::domain::segment::{
    is_segmentable, matches_spec, playback_segments, playback_segments_spec, segmentable, PlaybackSegment,
    SegmentSpec,
};
use crate::model::output::{DownloadProgress, OutputStatus};
use crate::model::playlist::PlaylistItem;
use crate::text::push_decimal;

verus! {

/// The segments that selection `item` plans.
pub open spec fn item_plan(surahs: Seq<Surah>, item: PlaylistItem) -> Seq<SegmentSpec> {
    playback_segments_spec(surahs, item.from_surah, item.to_surah, item.from_ayah, item.to_ayah)
}

/// Segments carrying exactly the bounds in `specs`.
pub open spec fn realized(specs: Seq<SegmentSpec>) -> Seq<PlaybackSegment> {
    choose|segs: Seq<PlaybackSegment>| matches_spec(segs, specs)
}

/// The files selection `item` plays with `reciter`, in order.
pub open spec fn item_files(surahs: Seq<Surah>, reciter: Reciter, root: Seq<char>, item: PlaylistItem) -> Seq<
    FileSpec,
> {
    files_of(realized(item_plan(surahs, item)), reciter, root)
}

/// The track paths selection `item` plays with `reciter`, in order.
pub open spec fn item_paths(surahs: Seq<Surah>, reciter: Reciter, root: Seq<char>, item: PlaylistItem) -> Seq<
    Seq<char>,
> {
    paths_of(realized(item_plan(surahs, item)), reciter, root)
}

/// The track labels of selection `item`, in order.
pub open spec fn item_labels(surahs: Seq<Surah>, item: PlaylistItem) -> Seq<Seq<char>> {
    labels_of(realized(item_plan(surahs, item)))
}

/// Track paths of a playlist: each item whose reciter the catalog knows, in
/// order; items with an unknown reciter are skipped.
pub open spec fn playlist_paths(
    surahs: Seq<Surah>,
    reciters: Seq<Reciter>,
    root: Seq<char>,
    items: Seq<PlaylistItem>,
) -> Seq<Seq<char>>
    decreases items.len(),
{
    if items.len() == 0 {
        Seq::empty()
    } else {
        let prev = playlist_paths(surahs, reciters, root, items.drop_last());
        match first_reciter(reciters, items.last().reciter_id@) {
            Some(r) => prev + item_paths(surahs, r, root, items.last()),
            None => prev,
        }
    }
}

/// Track labels of a playlist, parallel to [`playlist_paths`].
pub open spec fn playlist_labels(surahs: Seq<Surah>, reciters: Seq<Reciter>, items: Seq<PlaylistItem>) -> Seq<
    Seq<char>,
>
    decreases items.len(),
{
    if items.len() == 0 {
        Seq::empty()
    } else {
        let prev = playlist_labels(surahs, reciters, items.drop_last());
        match first_reciter(reciters, items.last().reciter_id@) {
            Some(r) => prev + item_labels(surahs, items.last()),
            None => prev,
        }
    }
}

/// Segments of a playlist: those of each item whose reciter the catalog knows.
pub open spec fn playlist_segments(surahs: Seq<Surah>, reciters: Seq<Reciter>, items: Seq<PlaylistItem>) -> Seq<
    SegmentSpec,
>
    decreases items.len(),
{
    if items.len() == 0 {
        Seq::empty()
    } else {
        let prev = playlist_segments(surahs, reciters, items.drop_last());
        match first_reciter(reciters, items.last().reciter_id@) {
            Some(r) => prev + item_plan(surahs, items.last()),
            None => prev,
        }
    }
}

/// Files a playlist must download when item `k`'s files on disk were
/// `present[k]`: each item's missing files in turn, each de-duplicated within
/// its item.
pub open spec fn playlist_missing(
    surahs: Seq<Surah>,
    reciters: Seq<Reciter>,
    root: Seq<char>,
    items: Seq<PlaylistItem>,
    present: Seq<Set<Seq<char>>>,
) -> Seq<FileSpec>
    decreases items.len(),
{
    if items.len() == 0 {
        Seq::empty()
    } else {
        let prev = playlist_missing(surahs, reciters, root, items.drop_last(), present.drop_last());
        match first_reciter(reciters, items.last().reciter_id@) {
            Some(r) => prev + missing_among(item_files(surahs, r, root, items.last()), present.last()),
            None => prev,
        }
    }
}

/// Every item the catalog can play can be segmented.
pub open spec fn playable(surahs: Seq<Surah>, reciters: Seq<Reciter>, items: Seq<PlaylistItem>) -> bool {
    forall|k: int|
        0 <= k < items.len() && first_reciter(reciters, items[k].reciter_id@) is Some ==> segmentable(
            surahs,
            #[trigger] items[k].from_surah,
            items[k].to_surah,
        )
}

/// Segments with the same surahs and bounds play the same files and labels.
proof fn lemma_same_bounds(a: Seq<PlaybackSegment>, b: Seq<PlaybackSegment>, reciter: Reciter, root: Seq<char>)
    requires
        a.len() == b.len(),
        forall|i: int|
            0 <= i < a.len() ==> (#[trigger] a[i]).surah == b[i].surah && a[i].first_ayah()
                == b[i].first_ayah() && a[i].last_ayah() == b[i].last_ayah(),
    ensures
        files_of(a, reciter, root) == files_of(b, reciter, root),
        labels_of(a) == labels_of(b),
    decreases a.len(),
{
    if a.len() > 0 {
        let (x, y) = (a.last(), b.last());
        assert(a[a.len() - 1] == x && b[b.len() - 1] == y);
        lemma_same_bounds(a.drop_last(), b.drop_last(), reciter, root);
        assert(Seq::new(crate::content::resolver::slot_count(x) as nat, |k: int| crate::content::resolver::slot_file(x, reciter, root, k))
            =~= Seq::new(crate::content::resolver::slot_count(y) as nat, |k: int| crate::content::resolver::slot_file(y, reciter, root, k)));
        assert(Seq::new(crate::content::resolver::slot_count(x) as nat, |k: int| crate::content::resolver::slot_label(x, k))
            =~= Seq::new(crate::content::resolver::slot_count(y) as nat, |k: int| crate::content::resolver::slot_label(y, k)));
    }
}

/// Any segments carrying `specs` play what [`realized`] plays.
pub proof fn lemma_realized(segs: Seq<PlaybackSegment>, specs: Seq<SegmentSpec>, reciter: Reciter, root: Seq<char>)
    requires
        matches_spec(segs, specs),
    ensures
        matches_spec(realized(specs), specs),
        files_of(realized(specs), reciter, root) == files_of(segs, reciter, root),
        paths_of(realized(specs), reciter, root) == paths_of(segs, reciter, root),
        labels_of(realized(specs)) == labels_of(segs),
{
    let c = realized(specs);
    assert(matches_spec(c, specs));
    assert forall|i: int| 0 <= i < c.len() implies (#[trigger] c[i]).surah == segs[i].surah && c[i].first_ayah()
        == segs[i].first_ayah() && c[i].last_ayah() == segs[i].last_ayah() by {
        assert(c[i].surah == specs[i].surah);
        assert(segs[i].surah == specs[i].surah);
    }
    lemma_same_bounds(c, segs, reciter, root);
}

/// Joining segment lists joins what they carry.
proof fn lemma_matches_concat(a: Seq<PlaybackSegment>, s: Seq<SegmentSpec>, b: Seq<PlaybackSegment>, t: Seq<SegmentSpec>)
    requires
        matches_spec(a, s),
        matches_spec(b, t),
    ensures
        matches_spec(a + b, s + t),
{
    assert forall|i: int| 0 <= i < (a + b).len() implies {
        &&& (#[trigger] (a + b)[i]).surah == (s + t)[i].surah
        &&& (a + b)[i].fresh()
        &&& (a + b)[i].first_ayah() == (s + t)[i].start
        &&& (a + b)[i].last_ayah() == (s + t)[i].end
    } by {
        if i < a.len() {
            assert((a + b)[i] == a[i]);
            assert((s + t)[i] == s[i]);
        } else {
            assert((a + b)[i] == b[i - a.len()]);
            assert((s + t)[i] == t[i - s.len()]);
        }
    }
}

/// One playlist, flattened into what its output's engine loads.
pub struct PlaylistLoad {
    /// Every track path, in play order.
    pub tracks: Vec<String>,
    /// One label per track.
    pub labels: Vec<String>,
    /// The segments behind the tracks (their surahs need verse text).
    pub segments: Vec<PlaybackSegment>,
    /// The files not on disk yet, to download.
    pub missing: Vec<MissingFile>,
}

/// Item `k`'s disk state `present[k]` is what the disk check found for that
/// item's track paths, for every item whose reciter is known.
pub open spec fn playlist_observed(
    surahs: Seq<Surah>,
    reciters: Seq<Reciter>,
    root: Seq<char>,
    items: Seq<PlaylistItem>,
    present: Seq<Set<Seq<char>>>,
) -> bool {
    forall|k: int|
        0 <= k < items.len() && first_reciter(reciters, items[k].reciter_id@) is Some ==> observed_on_disk(
            item_paths(surahs, first_reciter(reciters, items[k].reciter_id@)->0, root, #[trigger] items[k]),
            present[k],
        )
}

/// Resolve every item of a playlist into one flat track list: for each item
/// whose reciter the catalog knows, its per-ayah paths, labels, segments and
/// missing files are appended in order.
pub fn flatten_playlist(catalog: &Catalog, root: &str, items: &[PlaylistItem]) -> (r: PlaylistLoad)
    requires
        playable(catalog.surahs@, catalog.reciters@, items@),
    ensures
        strings_view(r.tracks@) == playlist_paths(catalog.surahs@, catalog.reciters@, root@, items@),
        strings_view(r.labels@) == playlist_labels(catalog.surahs@, catalog.reciters@, items@),
        matches_spec(r.segments@, playlist_segments(catalog.surahs@, catalog.reciters@, items@)),
        exists|present: Seq<Set<Seq<char>>>|
            present.len() == items@.len() && playlist_observed(
                catalog.surahs@,
                catalog.reciters@,
                root@,
                items@,
                present,
            ) && files_view(r.missing@) == playlist_missing(
                catalog.surahs@,
                catalog.reciters@,
                root@,
                items@,
                present,
            ),
{
    let ghost surahs = catalog.surahs@;
    let ghost reciters = catalog.reciters@;
    let mut tracks: Vec<String> = Vec::new();
    let mut labels: Vec<String> = Vec::new();
    let mut segments: Vec<PlaybackSegment> = Vec::new();
    let mut missing: Vec<MissingFile> = Vec::new();
    let ghost mut present: Seq<Set<Seq<char>>> = Seq::empty();
    let mut i: usize = 0;
    while i < items.len()
        invariant
            i <= items@.len(),
            surahs == catalog.surahs@,
            reciters == catalog.reciters@,
            playable(surahs, reciters, items@),
            present.len() == i,
            strings_view(tracks@) == playlist_paths(surahs, reciters, root@, items@.take(i as int)),
            strings_view(labels@) == playlist_labels(surahs, reciters, items@.take(i as int)),
            matches_spec(segments@, playlist_segments(surahs, reciters, items@.take(i as int))),
            files_view(missing@) == playlist_missing(surahs, reciters, root@, items@.take(i as int), present),
            playlist_observed(surahs, reciters, root@, items@.take(i as int), present),
        decreases items@.len() - i,
    {
        let item = &items[i];
        let ghost t = items@.take(i + 1);
        proof {
            assert(t.drop_last() =~= items@.take(i as int));
            assert(t.last() == *item);
        }
        match catalog.reciter(item.reciter_id.as_str()) {
            Some(reciter) => {
                assert(segmentable(surahs, items@[i as int].from_surah, items@[i as int].to_surah));
                let mut segs = playback_segments(
                    catalog.surahs.as_slice(),
                    item.from_surah,
                    item.to_surah,
                    item.from_ayah,
                    item.to_ayah,
                );
                let ghost plan = item_plan(surahs, *item);
                let ghost sv = segs@;
                proof {
                    lemma_realized(sv, plan, *reciter, root@);
                }
                let mut paths = per_ayah_paths(segs.as_slice(), reciter, root);
                let mut item_labels = per_ayah_labels(segs.as_slice());
                let mut item_missing = missing_files(segs.as_slice(), reciter, root);
                let ghost p = choose|p: Set<Seq<char>>|
                    observed_on_disk(paths_of(sv, *reciter, root@), p) && files_view(item_missing@)
                        == missing_among(files_of(sv, *reciter, root@), p);
                let ghost (t0, l0, s0, m0) = (tracks@, labels@, segments@, missing@);
                let ghost (pv, lv, mv) = (paths@, item_labels@, item_missing@);
                tracks.append(&mut paths);
                labels.append(&mut item_labels);
                segments.append(&mut segs);
                missing.append(&mut item_missing);
                proof {
                    lemma_matches_concat(s0, playlist_segments(surahs, reciters, items@.take(i as int)), sv, plan);
                    assert(strings_view(t0 + pv) =~= strings_view(t0) + strings_view(pv));
                    assert(strings_view(l0 + lv) =~= strings_view(l0) + strings_view(lv));
                    assert(files_view(m0 + mv) =~= files_view(m0) + files_view(mv));
                    let pr0 = present;
                    present = present.push(p);
                    assert(present.drop_last() =~= pr0);
                }
            },
            None => {
                proof {
                    let pr0 = present;
                    present = present.push(Set::empty());
                    assert(present.drop_last() =~= pr0);
                }
            },
        }
        i += 1;
    }
    proof {
        assert(items@.take(items@.len() as int) =~= items@);
    }
    PlaylistLoad { tracks, labels, segments, missing }
}

/// `l` is `items` flattened: paths, labels and segments of every item whose
/// reciter is known, and the files missing on disk (item `k`'s disk state
/// being `present[k]`, what the disk check found for its track paths).
pub open spec fn flattened(
    l: PlaylistLoad,
    surahs: Seq<Surah>,
    reciters: Seq<Reciter>,
    root: Seq<char>,
    items: Seq<PlaylistItem>,
) -> bool {
    &&& strings_view(l.tracks@) == playlist_paths(surahs, reciters, root, items)
    &&& strings_view(l.labels@) == playlist_labels(surahs, reciters, items)
    &&& matches_spec(l.segments@, playlist_segments(surahs, reciters, items))
    &&& exists|present: Seq<Set<Seq<char>>>|
        present.len() == items.len() && playlist_observed(surahs, reciters, root, items, present) && files_view(
            l.missing@,
        ) == playlist_missing(
            surahs,
            reciters,
            root,
            items,
            present,
        )
}

/// What playing a playlist on an output does.
pub enum PlaylistPlan {
    /// The output is still downloading: nothing changes.
    DownloadBusy,
    /// The playlist has no items.
    Empty,
    /// No item yields a track (every reciter is unknown, or every range empty).
    NothingToPlay,
    /// Load these tracks; download the missing files while playing.
    Load(PlaylistLoad),
}

/// Decide what playing playlist `items` on an output does: refuse while a
/// download runs or when the playlist is empty, else flatten it and load the
/// tracks when there are any.
pub fn plan_playlist(catalog: &Catalog, root: &str, items: &[PlaylistItem], download_active: bool) -> (r:
    PlaylistPlan)
    requires
        playable(catalog.surahs@, catalog.reciters@, items@),
    ensures
        download_active ==> r is DownloadBusy,
        !download_active && items@.len() == 0 ==> r is Empty,
        !download_active && items@.len() > 0 && playlist_paths(catalog.surahs@, catalog.reciters@, root@, items@).len()
            == 0 ==> r is NothingToPlay,
        !download_active && items@.len() > 0 && playlist_paths(catalog.surahs@, catalog.reciters@, root@, items@).len()
            > 0 ==> (r matches PlaylistPlan::Load(l) && flattened(l, catalog.surahs@, catalog.reciters@, root@, items@)),
{
    if download_active {
        return PlaylistPlan::DownloadBusy;
    }
    if items.len() == 0 {
        return PlaylistPlan::Empty;
    }
    let load = flatten_playlist(catalog, root, items);
    if load.tracks.len() == 0 {
        PlaylistPlan::NothingToPlay
    } else {
        PlaylistPlan::Load(load)
    }
}

/// The label shown for a whole-surah file of surah `number`.
pub open spec fn full_surah_label(surahs: Seq<Surah>, number: u16) -> Seq<char> {
    match first_surah(surahs, number) {
        Some(s) => s.name_transliterated@ + " (full surah)"@,
        None => "Full surah"@,
    }
}

/// `"<name> (full surah)"` for surah `number`, or `"Full surah"` when the
/// catalog lacks it.
pub fn full_surah_title(catalog: &Catalog, number: u16) -> (r: String)
    ensures
        r@ == full_surah_label(catalog.surahs@, number),
{
    match catalog.surah(number) {
        Some(s) => {
            let mut t = s.name_transliterated.clone();
            t.append(" (full surah)");
            t
        },
        None => String::from_str("Full surah"),
    }
}

/// What starting playback of a selection on an output does.
pub enum StartPlan {
    /// The output is still downloading: nothing changes.
    DownloadBusy,
    /// The selection's reciter is not in the catalog.
    UnknownReciter,
    /// The selection covers no ayah.
    NothingToPlay,
    /// Every file is on disk: load these tracks.
    Local { segments: Vec<PlaybackSegment>, tracks: Vec<String>, labels: Vec<String> },
    /// Per-ayah files are absent but the whole-surah file exists: load it.
    WholeSurah { segments: Vec<PlaybackSegment>, path: String, label: String },
    /// Files were missing, but none was found missing when listing them.
    NothingToDownload { segments: Vec<PlaybackSegment> },
    /// Load every track now and download the missing files while playing.
    Download {
        segments: Vec<PlaybackSegment>,
        tracks: Vec<String>,
        labels: Vec<String>,
        missing: Vec<MissingFile>,
    },
}

/// The segments a plan that got as far as resolving carries.
pub open spec fn plan_segments(r: StartPlan) -> Seq<PlaybackSegment> {
    match r {
        StartPlan::Local { segments, .. } => segments@,
        StartPlan::WholeSurah { segments, .. } => segments@,
        StartPlan::NothingToDownload { segments } => segments@,
        StartPlan::Download { segments, .. } => segments@,
        _ => Seq::empty(),
    }
}

/// The paths checked on disk to resolve `sel`: its track paths and, for a
/// one-surah selection, its whole-surah file.
pub open spec fn item_candidates(surahs: Seq<Surah>, reciter: Reciter, root: Seq<char>, sel: PlaylistItem) -> Seq<
    Seq<char>,
> {
    resolve_candidates(realized(item_plan(surahs, sel)), reciter, root)
}

/// Every track path of `sel` is in `present`.
pub open spec fn all_present(
    surahs: Seq<Surah>,
    reciter: Reciter,
    root: Seq<char>,
    sel: PlaylistItem,
    present: Set<Seq<char>>,
) -> bool {
    forall|i: int|
        0 <= i < item_paths(surahs, reciter, root, sel).len() ==> present.contains(
            #[trigger] item_paths(surahs, reciter, root, sel)[i],
        )
}

/// The selection is one surah in full and its whole-surah file is in `present`.
pub open spec fn whole_surah_present(
    surahs: Seq<Surah>,
    reciter: Reciter,
    root: Seq<char>,
    sel: PlaylistItem,
    present: Set<Seq<char>>,
) -> bool {
    let segs = realized(item_plan(surahs, sel));
    single_full_surah(segs) && present.contains(whole_surah_path_spec(segs[0].surah, reciter, root))
}

/// The outcome of resolving `sel` (a non-empty range with a known `reciter`)
/// when the files on disk were `present` while resolving and `listed` while
/// listing the missing ones.
pub open spec fn start_outcome(
    r: StartPlan,
    surahs: Seq<Surah>,
    reciter: Reciter,
    root: Seq<char>,
    sel: PlaylistItem,
    present: Set<Seq<char>>,
    listed: Set<Seq<char>>,
) -> bool {
    let paths = item_paths(surahs, reciter, root, sel);
    let labels = item_labels(surahs, sel);
    let segs = realized(item_plan(surahs, sel));
    let missing = missing_among(item_files(surahs, reciter, root, sel), listed);
    if all_present(surahs, reciter, root, sel, present) {
        r matches StartPlan::Local { tracks, labels: ls, .. } && strings_view(tracks@) == paths && strings_view(ls@)
            == labels
    } else if whole_surah_present(surahs, reciter, root, sel, present) {
        r matches StartPlan::WholeSurah { path, label, .. } && path@ == whole_surah_path_spec(
            segs[0].surah,
            reciter,
            root,
        ) && label@ == full_surah_label(surahs, sel.from_surah)
    } else if missing.len() == 0 {
        r is NothingToDownload
    } else {
        r matches StartPlan::Download { tracks, labels: ls, missing: m, .. } && strings_view(tracks@) == paths
            && strings_view(ls@) == labels && files_view(m@) == missing
    }
}

/// Whether `sel` can be planned: its reciter is unknown, or its span can be
/// segmented (the first and last surahs have ayahs).
pub fn can_plan_selection(catalog: &Catalog, sel: &PlaylistItem) -> (r: bool)
    ensures
        r == (first_reciter(catalog.reciters@, sel.reciter_id@) is Some ==> segmentable(
            catalog.surahs@,
            sel.from_surah,
            sel.to_surah,
        )),
{
    match catalog.reciter(sel.reciter_id.as_str()) {
        None => true,
        Some(_) => is_segmentable(catalog.surahs.as_slice(), sel.from_surah, sel.to_surah),
    }
}

/// Whether every item of a playlist can be planned (see [`can_plan_selection`]).
pub fn can_plan_playlist(catalog: &Catalog, items: &[PlaylistItem]) -> (r: bool)
    ensures
        r == playable(catalog.surahs@, catalog.reciters@, items@),
{
    let mut k: usize = 0;
    while k < items.len()
        invariant
            k <= items@.len(),
            forall|j: int|
                0 <= j < k && first_reciter(catalog.reciters@, items@[j].reciter_id@) is Some
                    ==> segmentable(catalog.surahs@, #[trigger] items@[j].from_surah, items@[j].to_surah),
        decreases items@.len() - k,
    {
        if !can_plan_selection(catalog, &items[k]) {
            return false;
        }
        k += 1;
    }
    true
}

/// Decide what starting playback of selection `sel` on an output does:
/// refuse while a download runs, for an unknown reciter or an empty range;
/// otherwise play the per-ayah files when all are on disk, else the whole-surah
/// file when the selection is one full surah and that file exists, else load
/// the tracks and download the missing files.
pub fn plan_start(catalog: &Catalog, root: &str, sel: &PlaylistItem, download_active: bool) -> (r: StartPlan)
    requires
        first_reciter(catalog.reciters@, sel.reciter_id@) is Some ==> segmentable(
            catalog.surahs@,
            sel.from_surah,
            sel.to_surah,
        ),
    ensures
        download_active ==> r is DownloadBusy,
        !download_active && first_reciter(catalog.reciters@, sel.reciter_id@) is None ==> r is UnknownReciter,
        !download_active && first_reciter(catalog.reciters@, sel.reciter_id@) is Some && item_plan(
            catalog.surahs@,
            *sel,
        ).len() == 0 ==> r is NothingToPlay,
        first_reciter(catalog.reciters@, sel.reciter_id@) is Some && !download_active && item_plan(
            catalog.surahs@,
            *sel,
        ).len() > 0 ==> {
            &&& matches_spec(plan_segments(r), item_plan(catalog.surahs@, *sel))
            &&& exists|present: Set<Seq<char>>, listed: Set<Seq<char>>|
                observed_on_disk(
                    item_candidates(
                        catalog.surahs@,
                        first_reciter(catalog.reciters@, sel.reciter_id@)->0,
                        root@,
                        *sel,
                    ),
                    present,
                ) && observed_on_disk(
                    item_paths(catalog.surahs@, first_reciter(catalog.reciters@, sel.reciter_id@)->0, root@, *sel),
                    listed,
                ) && start_outcome(
                    r,
                    catalog.surahs@,
                    first_reciter(catalog.reciters@, sel.reciter_id@)->0,
                    root@,
                    *sel,
                    present,
                    listed,
                )
        },
{
    if download_active {
        return StartPlan::DownloadBusy;
    }
    let reciter = match catalog.reciter(sel.reciter_id.as_str()) {
        Some(x) => x,
        None => return StartPlan::UnknownReciter,
    };
    let segments = playback_segments(
        catalog.surahs.as_slice(),
        sel.from_surah,
        sel.to_surah,
        sel.from_ayah,
        sel.to_ayah,
    );
    let ghost plan = item_plan(catalog.surahs@, *sel);
    if segments.len() == 0 {
        return StartPlan::NothingToPlay;
    }
    proof {
        lemma_realized(segments@, plan, *reciter, root@);
    }
    let resolution = resolve(segments.as_slice(), reciter, root);
    let ghost present = choose|present: Set<Seq<char>>|
        observed_on_disk(resolve_candidates(segments@, *reciter, root@), present) && resolves_to(
            resolution,
            segments@,
            *reciter,
            root@,
            present,
        );
    let ghost segs = realized(plan);
    let ghost rc = first_reciter(catalog.reciters@, sel.reciter_id@)->0;
    proof {
        assert(rc == *reciter);
        assert(segs.len() == segments@.len());
        assert(item_candidates(catalog.surahs@, rc, root@, *sel) == resolve_candidates(segments@, rc, root@));
        assert(segs[0].surah == segments@[0].surah && segs[0].first_ayah() == segments@[0].first_ayah()
            && segs[0].last_ayah() == segments@[0].last_ayah());
        assert(item_paths(catalog.surahs@, rc, root@, *sel) == paths_of(segments@, rc, root@));
        assert(item_files(catalog.surahs@, rc, root@, *sel) == files_of(segments@, rc, root@));
        assert(item_labels(catalog.surahs@, *sel) == labels_of(segments@));
        assert(single_full_surah(segs) == single_full_surah(segments@));
        assert(whole_surah_present(catalog.surahs@, rc, root@, *sel, present) == (single_full_surah(segments@)
            && present.contains(whole_surah_path_spec(segments@[0].surah, rc, root@))));
    }
    let ghost paths = paths_of(segments@, rc, root@);
    let ghost on_paths = Set::new(|p: Seq<char>| present.contains(p) && paths.contains(p));
    proof {
        assert(resolve_candidates(segments@, rc, root@).len() >= paths.len());
        assert forall|i: int| 0 <= i < paths.len() implies #[trigger] resolve_candidates(segments@, rc, root@)[i]
            == paths[i] by {}
        assert forall|i: int| 0 <= i < paths.len() implies crate::content::resolver::disk_answer(
            paths[i],
            #[trigger] on_paths.contains(paths[i]),
        ) by {
            assert(resolve_candidates(segments@, rc, root@)[i] == paths[i]);
            assert(paths.contains(paths[i]));
        }
        assert(observed_on_disk(paths, on_paths));
    }
    match resolution {
        Resolution::Local(tracks) => {
            let labels = per_ayah_labels(segments.as_slice());
            let r = StartPlan::Local { segments, tracks, labels };
            assert(start_outcome(r, catalog.surahs@, rc, root@, *sel, present, on_paths));
            r
        },
        Resolution::WholeSurahFallback(path) => {
            let label = full_surah_title(catalog, sel.from_surah);
            let r = StartPlan::WholeSurah { segments, path, label };
            assert(start_outcome(r, catalog.surahs@, rc, root@, *sel, present, on_paths));
            r
        },
        Resolution::Missing { .. } => {
            let missing = missing_files(segments.as_slice(), reciter, root);
            let ghost listed = choose|listed: Set<Seq<char>>|
                observed_on_disk(paths_of(segments@, *reciter, root@), listed) && files_view(missing@)
                    == missing_among(files_of(segments@, *reciter, root@), listed);
            if missing.len() == 0 {
                let r = StartPlan::NothingToDownload { segments };
                assert(start_outcome(r, catalog.surahs@, rc, root@, *sel, present, listed));
                r
            } else {
                let tracks = per_ayah_paths(segments.as_slice(), reciter, root);
                let labels = per_ayah_labels(segments.as_slice());
                let r = StartPlan::Download { segments, tracks, labels, missing };
                assert(start_outcome(r, catalog.surahs@, rc, root@, *sel, present, listed));
                r
            }
        },
    }
}

/// What falling back after a failed download gives for `sel` (a known
/// `reciter`) when the files on disk were `present`: the whole-surah file and
/// its label when the selection is one full surah whose file exists while its
/// per-ayah files do not all exist; nothing otherwise.
pub open spec fn fallback_outcome(
    r: Option<(String, String)>,
    surahs: Seq<Surah>,
    reciter: Reciter,
    root: Seq<char>,
    sel: PlaylistItem,
    present: Set<Seq<char>>,
) -> bool {
    let segs = realized(item_plan(surahs, sel));
    if item_plan(surahs, sel).len() > 0 && !all_present(surahs, reciter, root, sel, present)
        && whole_surah_present(surahs, reciter, root, sel, present) {
        r matches Some((path, label)) && path@ == whole_surah_path_spec(segs[0].surah, reciter, root) && label@
            == full_surah_label(surahs, sel.from_surah)
    } else {
        r is None
    }
}

/// After a failed download: the whole-surah file to play instead, with its
/// label, if the selection resolves to one.
pub fn plan_fallback(catalog: &Catalog, root: &str, sel: &PlaylistItem) -> (r: Option<(String, String)>)
    requires
        first_reciter(catalog.reciters@, sel.reciter_id@) is Some ==> segmentable(
            catalog.surahs@,
            sel.from_surah,
            sel.to_surah,
        ),
    ensures
        first_reciter(catalog.reciters@, sel.reciter_id@) is None ==> r is None,
        first_reciter(catalog.reciters@, sel.reciter_id@) is Some ==> exists|present: Set<Seq<char>>|
            observed_on_disk(
                item_candidates(catalog.surahs@, first_reciter(catalog.reciters@, sel.reciter_id@)->0, root@, *sel),
                present,
            ) && fallback_outcome(
                r,
                catalog.surahs@,
                first_reciter(catalog.reciters@, sel.reciter_id@)->0,
                root@,
                *sel,
                present,
            ),
{
    let reciter = match catalog.reciter(sel.reciter_id.as_str()) {
        Some(x) => x,
        None => return None,
    };
    let segments = playback_segments(
        catalog.surahs.as_slice(),
        sel.from_surah,
        sel.to_surah,
        sel.from_ayah,
        sel.to_ayah,
    );
    let ghost plan = item_plan(catalog.surahs@, *sel);
    let ghost rc = first_reciter(catalog.reciters@, sel.reciter_id@)->0;
    proof {
        lemma_realized(segments@, plan, *reciter, root@);
    }
    let resolution = resolve(segments.as_slice(), reciter, root);
    let ghost present = choose|present: Set<Seq<char>>|
        observed_on_disk(resolve_candidates(segments@, *reciter, root@), present) && resolves_to(
            resolution,
            segments@,
            *reciter,
            root@,
            present,
        );
    let ghost segs = realized(plan);
    proof {
        assert(rc == *reciter);
        assert(segs.len() == segments@.len());
        if segments@.len() == 1 {
            assert(segs[0].surah == segments@[0].surah);
        }
        assert(item_candidates(catalog.surahs@, rc, root@, *sel) == resolve_candidates(segments@, rc, root@));
        if segments@.len() > 0 {
            assert(segs[0].surah == segments@[0].surah && segs[0].first_ayah() == segments@[0].first_ayah()
                && segs[0].last_ayah() == segments@[0].last_ayah());
            assert(single_full_surah(segs) == single_full_surah(segments@));
        }
        assert(item_paths(catalog.surahs@, rc, root@, *sel) == paths_of(segments@, rc, root@));
    }
    match resolution {
        Resolution::WholeSurahFallback(path) => {
            let label = full_surah_title(catalog, sel.from_surah);
            let r = Some((path, label));
            assert(fallback_outcome(r, catalog.surahs@, rc, root@, *sel, present));
            r
        },
        _ => {
            assert(fallback_outcome(None, catalog.surahs@, rc, root@, *sel, present));
            None
        },
    }
}

/// Law: what starting a non-empty selection gives, for the files on disk
/// `present` while resolving and `listed` while listing: its per-ayah tracks
/// and labels exactly when every track is on disk; else the whole-surah file
/// when the selection is one full surah and that file is on disk; a download
/// lists only files the listing found absent, each path once, and loads every
/// track of the selection.
pub proof fn lemma_start_outcomes(
    r: StartPlan,
    surahs: Seq<Surah>,
    reciter: Reciter,
    root: Seq<char>,
    sel: PlaylistItem,
    present: Set<Seq<char>>,
    listed: Set<Seq<char>>,
)
    requires
        start_outcome(r, surahs, reciter, root, sel, present, listed),
    ensures
        (r is Local <==> all_present(surahs, reciter, root, sel, present)),
        r matches StartPlan::Local { tracks, labels, .. } ==> strings_view(tracks@) == item_paths(
            surahs,
            reciter,
            root,
            sel,
        ) && strings_view(labels@) == item_labels(surahs, sel),
        !all_present(surahs, reciter, root, sel, present) && whole_surah_present(surahs, reciter, root, sel, present)
            ==> (r matches StartPlan::WholeSurah { path, .. } && path@ == whole_surah_path_spec(
            realized(item_plan(surahs, sel))[0].surah,
            reciter,
            root,
        ) && present.contains(path@)),
        r matches StartPlan::Download { tracks, missing, .. } ==> strings_view(tracks@) == item_paths(
            surahs,
            reciter,
            root,
            sel,
        ) && missing@.len() > 0 && (forall|i: int|
            0 <= i < missing@.len() ==> !listed.contains((#[trigger] missing@[i]).local_path@)) && (forall|i: int, j: int|
            0 <= i < j < missing@.len() ==> (#[trigger] missing@[i]).local_path@ != (#[trigger] missing@[j]).local_path@),
{
    let files = item_files(surahs, reciter, root, sel);
    lemma_missing_files_sound(files, listed);
    if let StartPlan::Download { missing, .. } = r {
        let m = missing_among(files, listed);
        assert(files_view(missing@) == m);
        assert forall|i: int| 0 <= i < missing@.len() implies !listed.contains((#[trigger] missing@[i]).local_path@) by {
            assert(files_view(missing@)[i] == m[i]);
        }
        assert forall|i: int, j: int| 0 <= i < j < missing@.len() implies (#[trigger] missing@[i]).local_path@
            != (#[trigger] missing@[j]).local_path@ by {
            assert(files_view(missing@)[i] == m[i]);
            assert(files_view(missing@)[j] == m[j]);
        }
    }
}

/// Law: falling back after a failed download plays something exactly when the
/// selection is one full surah whose per-ayah files are not all on disk while
/// its whole-surah file is; it then plays that file, titled after the surah.
pub proof fn lemma_fallback_outcomes(
    r: Option<(String, String)>,
    surahs: Seq<Surah>,
    reciter: Reciter,
    root: Seq<char>,
    sel: PlaylistItem,
    present: Set<Seq<char>>,
)
    requires
        fallback_outcome(r, surahs, reciter, root, sel, present),
    ensures
        (r is Some <==> (item_plan(surahs, sel).len() > 0 && !all_present(surahs, reciter, root, sel, present)
            && single_full_surah(realized(item_plan(surahs, sel))) && present.contains(
            whole_surah_path_spec(realized(item_plan(surahs, sel))[0].surah, reciter, root),
        ))),
        r matches Some((path, label)) ==> present.contains(path@) && path@ == whole_surah_path_spec(
            realized(item_plan(surahs, sel))[0].surah,
            reciter,
            root,
        ) && label@ == full_surah_label(surahs, sel.from_surah),
{
}

/// `"Downloading <n> ayah file(s) — playing as they arrive"`.
pub open spec fn download_notice_spec(n: nat) -> Seq<char> {
    "Downloading "@ + crate::text::decimal(n) + " ayah file(s) \u{2014} playing as they arrive"@
}

/// `"Downloading <n> ayah file(s) for "<name>" — playing as they arrive"`.
pub open spec fn playlist_download_notice_spec(n: nat, name: Seq<char>) -> Seq<char> {
    "Downloading "@ + crate::text::decimal(n) + " ayah file(s) for \""@ + name
        + "\" \u{2014} playing as they arrive"@
}

/// The status message starting playback shows, if any.
pub open spec fn start_notice_spec(plan: StartPlan) -> Option<(Seq<char>, ToastKind)> {
    match plan {
        StartPlan::DownloadBusy => Some(("A download is already in progress"@, ToastKind::Warn)),
        StartPlan::UnknownReciter => Some(("Unknown reciter"@, ToastKind::Error)),
        StartPlan::NothingToPlay => Some(("Nothing to play for that range"@, ToastKind::Warn)),
        StartPlan::Local { .. } => None,
        StartPlan::WholeSurah { .. } => Some(
            ("Per-ayah files absent \u{2014} playing the whole-surah file"@, ToastKind::Info),
        ),
        StartPlan::NothingToDownload { .. } => Some(("Nothing to download"@, ToastKind::Warn)),
        StartPlan::Download { missing, .. } => Some(
            (download_notice_spec(missing@.len()), ToastKind::Info),
        ),
    }
}

/// The status message a start plan shows, if any.
pub fn start_notice(plan: &StartPlan) -> (r: Option<(String, ToastKind)>)
    ensures
        match (r, start_notice_spec(*plan)) {
            (Some((t, k)), Some((st, sk))) => t@ == st && k == sk,
            (None, None) => true,
            _ => false,
        },
{
    match plan {
        StartPlan::DownloadBusy => Some((String::from_str("A download is already in progress"), ToastKind::Warn)),
        StartPlan::UnknownReciter => Some((String::from_str("Unknown reciter"), ToastKind::Error)),
        StartPlan::NothingToPlay => Some((String::from_str("Nothing to play for that range"), ToastKind::Warn)),
        StartPlan::Local { .. } => None,
        StartPlan::WholeSurah { .. } => Some(
            (
                String::from_str("Per-ayah files absent \u{2014} playing the whole-surah file"),
                ToastKind::Info,
            ),
        ),
        StartPlan::NothingToDownload { .. } => Some((String::from_str("Nothing to download"), ToastKind::Warn)),
        StartPlan::Download { missing, .. } => {
            let mut t = String::from_str("Downloading ");
            push_decimal(&mut t, missing.len() as u64);
            t.append(" ayah file(s) \u{2014} playing as they arrive");
            Some((t, ToastKind::Info))
        },
    }
}

/// The status message playing a playlist named `name` shows, if any.
pub open spec fn playlist_notice_spec(plan: PlaylistPlan, name: Seq<char>) -> Option<(Seq<char>, ToastKind)> {
    match plan {
        PlaylistPlan::DownloadBusy => Some(("A download is already in progress"@, ToastKind::Warn)),
        PlaylistPlan::Empty => Some(("This playlist is empty \u{2014} add tracks first"@, ToastKind::Warn)),
        PlaylistPlan::NothingToPlay => Some(("Nothing to play in this playlist"@, ToastKind::Warn)),
        PlaylistPlan::Load(l) => if l.missing@.len() == 0 {
            None
        } else {
            Some((playlist_download_notice_spec(l.missing@.len(), name), ToastKind::Info))
        },
    }
}

/// The status message a playlist plan shows, if any.
pub fn playlist_notice(plan: &PlaylistPlan, name: &str) -> (r: Option<(String, ToastKind)>)
    ensures
        match (r, playlist_notice_spec(*plan, name@)) {
            (Some((t, k)), Some((st, sk))) => t@ == st && k == sk,
            (None, None) => true,
            _ => false,
        },
{
    match plan {
        PlaylistPlan::DownloadBusy => Some((String::from_str("A download is already in progress"), ToastKind::Warn)),
        PlaylistPlan::Empty => Some(
            (String::from_str("This playlist is empty \u{2014} add tracks first"), ToastKind::Warn),
        ),
        PlaylistPlan::NothingToPlay => Some((String::from_str("Nothing to play in this playlist"), ToastKind::Warn)),
        PlaylistPlan::Load(l) => {
            if l.missing.len() == 0 {
                None
            } else {
                let mut t = String::from_str("Downloading ");
                push_decimal(&mut t, l.missing.len() as u64);
                t.append(" ayah file(s) for \"");
                t.append(name);
                t.append("\" \u{2014} playing as they arrive");
                Some((t, ToastKind::Info))
            }
        },
    }
}

/// An order for an output's engine, in the order it is sent.
pub enum EngineOrder {
    /// Apply the output's configured volume.
    SetVolume,
    /// Load these tracks, looping or not, playing at once or not.
    Load { tracks: Vec<String>, loop_enabled: bool, autoplay: bool },
}

/// Start a flattened playlist on an output: the output shows the playlist's
/// tracks from the first, as per-ayah tracks; its engine is sent the volume,
/// then the tracks; and when files are missing, a download of them starts,
/// tied to the playlist so that it plays again once they have arrived.
/// Returns the engine orders and the files to download.
pub fn start_playlist(
    status: &mut OutputStatus,
    load: PlaylistLoad,
    loop_enabled: bool,
    autoplay: bool,
    playlist_id: &str,
) -> (r: (Vec<EngineOrder>, Vec<MissingFile>))
    ensures
        final(status).state == old(status).state,
        final(status).track_labels@ == load.labels@,
        final(status).track_total == load.tracks@.len(),
        final(status).track_index == 0,
        !final(status).is_fallback,
        load.missing@.len() == 0 ==> final(status).download == old(status).download,
        load.missing@.len() > 0 ==> (final(status).download matches Some(d) && d.done == 0 && d.total
            == load.missing@.len() && d.label@ == "starting"@ && d.autoplay == autoplay
            && (d.playlist_id matches Some(id) && id@ == playlist_id@)),
        r.0@.len() == 2,
        r.0@[0] is SetVolume,
        r.0@[1] matches EngineOrder::Load { tracks, loop_enabled: l, autoplay: a } && tracks@ == load.tracks@
            && l == loop_enabled && a == autoplay,
        r.1@ == load.missing@,
{
    let PlaylistLoad { tracks, labels, segments: _, missing } = load;
    let total = tracks.len();
    status.load(labels, total, false);
    if missing.len() > 0 {
        status.download = Some(DownloadProgress::starting(missing.len(), autoplay, Some(String::from_str(playlist_id))));
    }
    let mut orders: Vec<EngineOrder> = Vec::new();
    orders.push(EngineOrder::SetVolume);
    orders.push(EngineOrder::Load { tracks, loop_enabled, autoplay });
    (orders, missing)
}

} // verus!
