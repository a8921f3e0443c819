//! Content resolution: where each ayah's audio lives, locally and remotely,
//! and whether a request can play from local files.
//!
//! Resolution priority:
//! 1. Every per-ayah file (plus bismillah where required) exists → [`Resolution::Local`].
//! 2. Else, a single full surah whose whole-surah file exists → [`Resolution::WholeSurahFallback`].
//! 3. Else → [`Resolution::Missing`].
//!
//! Paths are strings joined with `/`, the way `Path::join` joins relative
//! components on Unix.

use vstd::prelude::*;

use crate::domain::catalog::{Reciter, Surah};
use crate::domain::segment::PlaybackSegment;
use crate::domain::slug::{surah_slug, surah_slug_spec};
use crate::text::{decimal, decimal_string, pad3, push_decimal, push_three_digit, str_eq};

verus! {

/// Outcome of resolving a playback request against local files.
#[derive(Debug, PartialEq, Eq)]
pub enum Resolution {
    /// Every requested file is present locally; play this exact list.
    Local(Vec<String>),
    /// Per-ayah files were absent but a whole-surah file exists.
    WholeSurahFallback(String),
    /// Files are missing and must be downloaded first.
    Missing { count: usize },
}

/// One ayah file that must be downloaded.
#[derive(Debug, PartialEq, Eq)]
pub struct MissingFile {
    pub local_path: String,
    pub remote_url: String,
    /// Human-readable label, e.g. `36:12` or `bismillah`.
    pub label: String,
}

/// The character contents of a [`MissingFile`].
pub struct FileSpec {
    pub local_path: Seq<char>,
    pub remote_url: Seq<char>,
    pub label: Seq<char>,
}

impl View for MissingFile {
    type V = FileSpec;

    open spec fn view(&self) -> FileSpec {
        FileSpec { local_path: self.local_path@, remote_url: self.remote_url@, label: self.label@ }
    }
}

/// The character contents of a list of strings.
pub open spec fn strings_view(v: Seq<String>) -> Seq<Seq<char>> {
    v.map_values(|s: String| s@)
}

/// The character contents of a list of missing files.
pub open spec fn files_view(v: Seq<MissingFile>) -> Seq<FileSpec> {
    v.map_values(|f: MissingFile| f@)
}

/// `comp` joined onto `root` as `Path::join` does on Unix: an absolute `comp`
/// replaces `root`; otherwise a `/` is inserted unless `root` is empty or
/// already ends with one.
pub open spec fn join_path(root: Seq<char>, comp: Seq<char>) -> Seq<char> {
    if comp.len() > 0 && comp[0] == '/' {
        comp
    } else if root.len() == 0 {
        comp
    } else if root.last() == '/' {
        root + comp
    } else {
        root + seq!['/'] + comp
    }
}

/// `<root>/<perAyahDirectorySlug>/<NNN>/<AAA>.mp3`
pub open spec fn per_ayah_path_spec(reciter: Reciter, surah: int, ayah: int, root: Seq<char>) -> Seq<
    char,
> {
    join_path(
        join_path(
            join_path(root, reciter.per_ayah_directory_slug@),
            pad3(decimal(surah as nat)),
        ),
        pad3(decimal(ayah as nat)) + ".mp3"@,
    )
}

/// `<root>/<NNN>-<surah_slug>-<fileSlug>.mp3`
pub open spec fn whole_surah_path_spec(surah: Surah, reciter: Reciter, root: Seq<char>) -> Seq<char> {
    join_path(
        root,
        pad3(decimal(surah.number as nat)) + "-"@ + surah_slug_spec(surah.name_transliterated@)
            + "-"@ + reciter.file_slug@ + ".mp3"@,
    )
}

/// `<root>/<perAyahDirectorySlug>/001/001.mp3`
pub open spec fn bismillah_path_spec(reciter: Reciter, root: Seq<char>) -> Seq<char> {
    join_path(join_path(join_path(root, reciter.per_ayah_directory_slug@), "001"@), "001.mp3"@)
}

/// `https://everyayah.com/data/<perAyahDirectorySlug>/<NNN><AAA>.mp3`
pub open spec fn per_ayah_url_spec(reciter: Reciter, surah: int, ayah: int) -> Seq<char> {
    "https://everyayah.com/data/"@ + reciter.per_ayah_directory_slug@ + "/"@ + pad3(
        decimal(surah as nat),
    ) + pad3(decimal(ayah as nat)) + ".mp3"@
}

/// `https://everyayah.com/data/<perAyahDirectorySlug>/001001.mp3`
pub open spec fn bismillah_url_spec(reciter: Reciter) -> Seq<char> {
    "https://everyayah.com/data/"@ + reciter.per_ayah_directory_slug@ + "/001001.mp3"@
}

/// `<surah>:<ayah>`
pub open spec fn ayah_label(surah: int, ayah: int) -> Seq<char> {
    decimal(surah as nat) + ":"@ + decimal(ayah as nat)
}

/// Whether a bismillah clip plays before `seg`: the range starts at ayah 1 and
/// the surah is neither 1 (Al-Fatihah contains it) nor 9 (At-Tawbah has none).
pub open spec fn prepends(seg: PlaybackSegment) -> bool {
    seg.first_ayah() == 1 && seg.surah.number != 1 && seg.surah.number != 9
}

/// Number of tracks `seg` plays, the bismillah clip included.
pub open spec fn slot_count(seg: PlaybackSegment) -> int {
    (if prepends(seg) { 1int } else { 0int }) + (if seg.last_ayah() >= seg.first_ayah() {
        seg.last_ayah() - seg.first_ayah() + 1
    } else {
        0int
    })
}

/// Slot `k` of `seg` is the bismillah clip.
pub open spec fn is_bismillah_slot(seg: PlaybackSegment, k: int) -> bool {
    prepends(seg) && k == 0
}

/// The ayah that slot `k` of `seg` plays (when it is not the bismillah clip).
pub open spec fn slot_ayah(seg: PlaybackSegment, k: int) -> int {
    seg.first_ayah() + k - (if prepends(seg) { 1int } else { 0int })
}

/// The file behind slot `k` of `seg`.
pub open spec fn slot_file(seg: PlaybackSegment, reciter: Reciter, root: Seq<char>, k: int) -> FileSpec {
    if is_bismillah_slot(seg, k) {
        FileSpec {
            local_path: bismillah_path_spec(reciter, root),
            remote_url: bismillah_url_spec(reciter),
            label: "bismillah"@,
        }
    } else {
        FileSpec {
            local_path: per_ayah_path_spec(reciter, seg.surah.number as int, slot_ayah(seg, k), root),
            remote_url: per_ayah_url_spec(reciter, seg.surah.number as int, slot_ayah(seg, k)),
            label: ayah_label(seg.surah.number as int, slot_ayah(seg, k)),
        }
    }
}

/// The display label of slot `k` of `seg`.
pub open spec fn slot_label(seg: PlaybackSegment, k: int) -> Seq<char> {
    if is_bismillah_slot(seg, k) {
        "Bismillah"@
    } else {
        ayah_label(seg.surah.number as int, slot_ayah(seg, k))
    }
}

/// Every file of every segment, in playback order.
pub open spec fn files_of(segs: Seq<PlaybackSegment>, reciter: Reciter, root: Seq<char>) -> Seq<
    FileSpec,
>
    decreases segs.len(),
{
    if segs.len() == 0 {
        Seq::empty()
    } else {
        files_of(segs.drop_last(), reciter, root) + Seq::new(
            slot_count(segs.last()) as nat,
            |k: int| slot_file(segs.last(), reciter, root, k),
        )
    }
}

/// Every track path of every segment, in playback order.
pub open spec fn paths_of(segs: Seq<PlaybackSegment>, reciter: Reciter, root: Seq<char>) -> Seq<
    Seq<char>,
> {
    files_of(segs, reciter, root).map_values(|f: FileSpec| f.local_path)
}

/// Every track label of every segment, in playback order.
pub open spec fn labels_of(segs: Seq<PlaybackSegment>) -> Seq<Seq<char>>
    decreases segs.len(),
{
    if segs.len() == 0 {
        Seq::empty()
    } else {
        labels_of(segs.drop_last()) + Seq::new(
            slot_count(segs.last()) as nat,
            |k: int| slot_label(segs.last(), k),
        )
    }
}

/// The files of `files` whose path is not in `present`, each path once
/// (its first occurrence).
pub open spec fn missing_among(files: Seq<FileSpec>, present: Set<Seq<char>>) -> Seq<FileSpec>
    decreases files.len(),
{
    if files.len() == 0 {
        Seq::empty()
    } else {
        let prev = missing_among(files.drop_last(), present);
        let f = files.last();
        if !present.contains(f.local_path) && !prev.map_values(|m: FileSpec| m.local_path).contains(
            f.local_path,
        ) {
            prev.push(f)
        } else {
            prev
        }
    }
}

/// `segs` is exactly one surah played in full.
pub open spec fn single_full_surah(segs: Seq<PlaybackSegment>) -> bool {
    segs.len() == 1 && segs[0].first_ayah() == 1 && segs[0].last_ayah() == segs[0].surah.ayah_count
}

/// What [`resolve`] answers when the files on disk are exactly `present`.
pub open spec fn resolves_to(
    r: Resolution,
    segs: Seq<PlaybackSegment>,
    reciter: Reciter,
    root: Seq<char>,
    present: Set<Seq<char>>,
) -> bool {
    if segs.len() == 0 {
        r == Resolution::Missing { count: 0 }
    } else if forall|i: int|
        0 <= i < paths_of(segs, reciter, root).len() ==> present.contains(
            #[trigger] paths_of(segs, reciter, root)[i],
        ) {
        r matches Resolution::Local(v) && strings_view(v@) == paths_of(segs, reciter, root)
    } else if single_full_surah(segs) && present.contains(
        whole_surah_path_spec(segs[0].surah, reciter, root),
    ) {
        r matches Resolution::WholeSurahFallback(p) && p@ == whole_surah_path_spec(
            segs[0].surah,
            reciter,
            root,
        )
    } else {
        r matches Resolution::Missing { count } && count == missing_among(
            files_of(segs, reciter, root),
            present,
        ).len()
    }
}

/// The set of paths named in `existing`.
pub open spec fn present_set(existing: Seq<String>) -> Set<Seq<char>> {
    Set::new(|p: Seq<char>| exists|j: int| 0 <= j < existing.len() && existing[j]@ == p)
}

/// Every segment's range was built directly from its bounds.
pub open spec fn all_fresh(segs: Seq<PlaybackSegment>) -> bool {
    forall|i: int| 0 <= i < segs.len() ==> (#[trigger] segs[i]).fresh()
}

/// `comp` joined onto `root` (see [`join_path`]).
pub fn join(root: &str, comp: &str) -> (r: String)
    ensures
        r@ == join_path(root@, comp@),
{
    let comp_len = comp.unicode_len();
    let root_len = root.unicode_len();
    if comp_len > 0 && comp.get_char(0) == '/' {
        String::from_str(comp)
    } else if root_len == 0 {
        String::from_str(comp)
    } else if root.get_char(root_len - 1) == '/' {
        let mut s = String::from_str(root);
        s.append(comp);
        s
    } else {
        let mut s = String::from_str(root);
        s.push('/');
        s.append(comp);
        s
    }
}

/// `<root>/<perAyahDirectorySlug>/<NNN>/<AAA>.mp3`
pub fn per_ayah_local_path(reciter: &Reciter, surah_number: u16, ayah: u16, root: &str) -> (r: String)
    ensures
        r@ == per_ayah_path_spec(*reciter, surah_number as int, ayah as int, root@),
{
    let dir = join(root, reciter.per_ayah_directory_slug.as_str());
    let mut surah_part = String::new();
    push_three_digit(&mut surah_part, surah_number);
    let surah_dir = join(dir.as_str(), surah_part.as_str());
    let mut file = String::new();
    push_three_digit(&mut file, ayah);
    file.append(".mp3");
    join(surah_dir.as_str(), file.as_str())
}

/// `<root>/<NNN>-<surah_slug>-<fileSlug>.mp3`
pub fn whole_surah_local_path(surah: &Surah, reciter: &Reciter, root: &str) -> (r: String)
    ensures
        r@ == whole_surah_path_spec(*surah, *reciter, root@),
{
    let slug = surah_slug(surah.name_transliterated.as_str());
    let mut file = String::new();
    push_three_digit(&mut file, surah.number);
    file.append("-");
    file.append(slug.as_str());
    file.append("-");
    file.append(reciter.file_slug.as_str());
    file.append(".mp3");
    join(root, file.as_str())
}

/// `<root>/<perAyahDirectorySlug>/001/001.mp3` — ayah 1 of surah 1 doubles as
/// the standalone bismillah clip.
pub fn bismillah_local_path(reciter: &Reciter, root: &str) -> (r: String)
    ensures
        r@ == bismillah_path_spec(*reciter, root@),
{
    let dir = join(root, reciter.per_ayah_directory_slug.as_str());
    let surah_dir = join(dir.as_str(), "001");
    join(surah_dir.as_str(), "001.mp3")
}

/// `https://everyayah.com/data/<perAyahDirectorySlug>/<NNN><AAA>.mp3`
pub fn per_ayah_remote_url(reciter: &Reciter, surah_number: u16, ayah: u16) -> (r: String)
    ensures
        r@ == per_ayah_url_spec(*reciter, surah_number as int, ayah as int),
{
    let mut s = String::from_str("https://everyayah.com/data/");
    s.append(reciter.per_ayah_directory_slug.as_str());
    s.append("/");
    push_three_digit(&mut s, surah_number);
    push_three_digit(&mut s, ayah);
    s.append(".mp3");
    s
}

/// `https://everyayah.com/data/<perAyahDirectorySlug>/001001.mp3`
pub fn bismillah_remote_url(reciter: &Reciter) -> (r: String)
    ensures
        r@ == bismillah_url_spec(*reciter),
{
    let mut s = String::from_str("https://everyayah.com/data/");
    s.append(reciter.per_ayah_directory_slug.as_str());
    s.append("/001001.mp3");
    s
}

/// Prepend the bismillah clip before a segment iff the range starts at ayah 1
/// and the surah is not 1 (Al-Fatihah contains it) and not 9 (At-Tawbah has no
/// basmala).
pub fn should_prepend_bismillah(segment: &PlaybackSegment) -> (r: bool)
    ensures
        segment.fresh() ==> r == prepends(*segment),
{
    *segment.range.start() == 1 && segment.surah.number != 1 && segment.surah.number != 9
}


/// The number of tracks a segment plays, the bismillah clip included.
fn slot_count_exec(seg: &PlaybackSegment) -> (r: usize)
    requires
        seg.fresh(),
    ensures
        r == slot_count(*seg),
{
    let prepend = should_prepend_bismillah(seg);
    let start = *seg.range.start();
    let end = *seg.range.end();
    let ayahs: usize = if end >= start {
        (end - start) as usize + 1
    } else {
        0
    };
    if prepend {
        ayahs + 1
    } else {
        ayahs
    }
}

/// The ayah behind a non-bismillah slot `k` of `seg`.
fn slot_ayah_exec(seg: &PlaybackSegment, k: usize) -> (r: u16)
    requires
        seg.fresh(),
        0 <= k < slot_count(*seg),
        !is_bismillah_slot(*seg, k as int),
    ensures
        r == slot_ayah(*seg, k as int),
{
    let prepend = should_prepend_bismillah(seg);
    let start = *seg.range.start();
    let offset: usize = if prepend {
        k - 1
    } else {
        k
    };
    (start as usize + offset) as u16
}

/// The `<surah>:<ayah>` label.
fn ayah_label_exec(surah: u16, ayah: u16) -> (r: String)
    ensures
        r@ == ayah_label(surah as int, ayah as int),
{
    let mut s = decimal_string(surah as u64);
    s.append(":");
    push_decimal(&mut s, ayah as u64);
    s
}

/// The file behind slot `k` of `seg`.
fn slot_file_exec(seg: &PlaybackSegment, reciter: &Reciter, root: &str, k: usize) -> (r: MissingFile)
    requires
        seg.fresh(),
        0 <= k < slot_count(*seg),
    ensures
        r@ == slot_file(*seg, *reciter, root@, k as int),
{
    if should_prepend_bismillah(seg) && k == 0 {
        MissingFile {
            local_path: bismillah_local_path(reciter, root),
            remote_url: bismillah_remote_url(reciter),
            label: String::from_str("bismillah"),
        }
    } else {
        let ayah = slot_ayah_exec(seg, k);
        let number = seg.surah.number;
        MissingFile {
            local_path: per_ayah_local_path(reciter, number, ayah, root),
            remote_url: per_ayah_remote_url(reciter, number, ayah),
            label: ayah_label_exec(number, ayah),
        }
    }
}

/// The display label of slot `k` of `seg`.
fn slot_label_exec(seg: &PlaybackSegment, k: usize) -> (r: String)
    requires
        seg.fresh(),
        0 <= k < slot_count(*seg),
    ensures
        r@ == slot_label(*seg, k as int),
{
    if should_prepend_bismillah(seg) && k == 0 {
        String::from_str("Bismillah")
    } else {
        let ayah = slot_ayah_exec(seg, k);
        ayah_label_exec(seg.surah.number, ayah)
    }
}

/// The per-ayah (and bismillah) path list for `segments`, built unconditionally
/// without checking whether the files exist — the path layout is deterministic.
/// Parallel to [`per_ayah_labels`].
pub fn per_ayah_paths(segments: &[PlaybackSegment], reciter: &Reciter, root: &str) -> (r: Vec<String>)
    requires
        all_fresh(segments@),
    ensures
        strings_view(r@) == paths_of(segments@, *reciter, root@),
{
    let mut paths: Vec<String> = Vec::new();
    let mut i: usize = 0;
    while i < segments.len()
        invariant
            i <= segments@.len(),
            all_fresh(segments@),
            strings_view(paths@) == paths_of(segments@.take(i as int), *reciter, root@),
        decreases segments@.len() - i,
    {
        let seg = &segments[i];
        assert(seg.fresh());
        let count = slot_count_exec(seg);
        let ghost base = strings_view(paths@);
        let mut k: usize = 0;
        while k < count
            invariant
                k <= count == slot_count(*seg),
                seg.fresh(),
                strings_view(paths@) == base + Seq::new(
                    k as nat,
                    |j: int| slot_file(*seg, *reciter, root@, j).local_path,
                ),
            decreases count - k,
        {
            let f = slot_file_exec(seg, reciter, root, k);
            let ghost before = paths@;
            paths.push(f.local_path);
            proof {
                assert(strings_view(paths@) =~= strings_view(before).push(f.local_path@));
                assert(base + Seq::new((k + 1) as nat, |j: int| slot_file(*seg, *reciter, root@, j).local_path)
                    =~= (base + Seq::new(k as nat, |j: int| slot_file(*seg, *reciter, root@, j).local_path)).push(
                    slot_file(*seg, *reciter, root@, k as int).local_path,
                ));
            }
            k += 1;
        }
        proof {
            let t = segments@.take(i + 1);
            assert(t.drop_last() =~= segments@.take(i as int));
            assert(t.last() == *seg);
            let new_files = Seq::new(count as nat, |j: int| slot_file(*seg, *reciter, root@, j));
            assert(files_of(t, *reciter, root@) == files_of(segments@.take(i as int), *reciter, root@)
                + new_files);
            assert(paths_of(t, *reciter, root@) =~= paths_of(segments@.take(i as int), *reciter, root@)
                + Seq::new(count as nat, |j: int| slot_file(*seg, *reciter, root@, j).local_path));
        }
        i += 1;
    }
    proof {
        assert(segments@.take(segments@.len() as int) =~= segments@);
    }
    paths
}

/// Human-readable label per track, parallel to the per-ayah path order
/// produced by a `Local` resolution (bismillah prepends included).
pub fn per_ayah_labels(segments: &[PlaybackSegment]) -> (r: Vec<String>)
    requires
        all_fresh(segments@),
    ensures
        strings_view(r@) == labels_of(segments@),
{
    let mut labels: Vec<String> = Vec::new();
    let mut i: usize = 0;
    while i < segments.len()
        invariant
            i <= segments@.len(),
            all_fresh(segments@),
            strings_view(labels@) == labels_of(segments@.take(i as int)),
        decreases segments@.len() - i,
    {
        let seg = &segments[i];
        assert(seg.fresh());
        let count = slot_count_exec(seg);
        let ghost base = strings_view(labels@);
        let mut k: usize = 0;
        while k < count
            invariant
                k <= count == slot_count(*seg),
                seg.fresh(),
                strings_view(labels@) == base + Seq::new(k as nat, |j: int| slot_label(*seg, j)),
            decreases count - k,
        {
            let l = slot_label_exec(seg, k);
            let ghost before = labels@;
            labels.push(l);
            proof {
                assert(strings_view(labels@) =~= strings_view(before).push(l@));
                assert(base + Seq::new((k + 1) as nat, |j: int| slot_label(*seg, j)) =~= (base + Seq::new(
                    k as nat,
                    |j: int| slot_label(*seg, j),
                )).push(slot_label(*seg, k as int)));
            }
            k += 1;
        }
        proof {
            let t = segments@.take(i + 1);
            assert(t.drop_last() =~= segments@.take(i as int));
            assert(t.last() == *seg);
        }
        i += 1;
    }
    proof {
        assert(segments@.take(segments@.len() as int) =~= segments@);
    }
    labels
}


/// Whether `p` is one of the paths in `list`.
fn contains_path(list: &[String], p: &str) -> (r: bool)
    ensures
        r == present_set(list@).contains(p@),
{
    let mut j: usize = 0;
    while j < list.len()
        invariant
            j <= list@.len(),
            forall|m: int| 0 <= m < j ==> list@[m]@ != p@,
        decreases list@.len() - j,
    {
        if str_eq(list[j].as_str(), p) {
            return true;
        }
        j += 1;
    }
    false
}

/// Whether a file with local path `p` is already in `list`.
fn seen_path(list: &Vec<MissingFile>, p: &str) -> (r: bool)
    ensures
        r == files_view(list@).map_values(|m: FileSpec| m.local_path).contains(p@),
{
    let mut j: usize = 0;
    while j < list.len()
        invariant
            j <= list@.len(),
            forall|m: int| 0 <= m < j ==> list@[m].local_path@ != p@,
        decreases list@.len() - j,
    {
        if str_eq(list[j].local_path.as_str(), p) {
            assert(files_view(list@).map_values(|m: FileSpec| m.local_path)[j as int] == p@);
            return true;
        }
        j += 1;
    }
    proof {
        let v = files_view(list@).map_values(|m: FileSpec| m.local_path);
        if v.contains(p@) {
            let m = choose|m: int| 0 <= m < v.len() && v[m] == p@;
            assert(list@[m].local_path@ == p@);
        }
    }
    false
}

/// Every per-ayah (and bismillah) file the request needs whose path is not
/// among `existing`, de-duplicated by path in first-occurrence order.
pub fn missing_files_among(
    segments: &[PlaybackSegment],
    reciter: &Reciter,
    root: &str,
    existing: &[String],
) -> (r: Vec<MissingFile>)
    requires
        all_fresh(segments@),
    ensures
        files_view(r@) == missing_among(files_of(segments@, *reciter, root@), present_set(existing@)),
{
    let ghost present = present_set(existing@);
    let mut missing: Vec<MissingFile> = Vec::new();
    let mut i: usize = 0;
    while i < segments.len()
        invariant
            i <= segments@.len(),
            all_fresh(segments@),
            present == present_set(existing@),
            files_view(missing@) == missing_among(
                files_of(segments@.take(i as int), *reciter, root@),
                present,
            ),
        decreases segments@.len() - i,
    {
        let seg = &segments[i];
        assert(seg.fresh());
        let count = slot_count_exec(seg);
        let ghost base = files_of(segments@.take(i as int), *reciter, root@);
        let mut k: usize = 0;
        while k < count
            invariant
                k <= count == slot_count(*seg),
                seg.fresh(),
                present == present_set(existing@),
                files_view(missing@) == missing_among(
                    base + Seq::new(k as nat, |j: int| slot_file(*seg, *reciter, root@, j)),
                    present,
                ),
            decreases count - k,
        {
            let f = slot_file_exec(seg, reciter, root, k);
            let ghost prefix = base + Seq::new(k as nat, |j: int| slot_file(*seg, *reciter, root@, j));
            let ghost next = base + Seq::new((k + 1) as nat, |j: int| slot_file(*seg, *reciter, root@, j));
            proof {
                assert(next.drop_last() =~= prefix);
                assert(next.last() == f@);
            }
            let is_present = contains_path(existing, f.local_path.as_str());
            let already = seen_path(&missing, f.local_path.as_str());
            if !is_present && !already {
                let ghost before = missing@;
                missing.push(f);
                proof {
                    assert(files_view(missing@) =~= files_view(before).push(f@));
                }
            }
            k += 1;
        }
        proof {
            let t = segments@.take(i + 1);
            assert(t.drop_last() =~= segments@.take(i as int));
            assert(t.last() == *seg);
        }
        i += 1;
    }
    proof {
        assert(segments@.take(segments@.len() as int) =~= segments@);
    }
    missing
}

/// Resolve a playback request given the paths that exist on disk.
pub fn resolve_among(
    segments: &[PlaybackSegment],
    reciter: &Reciter,
    root: &str,
    existing: &[String],
) -> (r: Resolution)
    requires
        all_fresh(segments@),
    ensures
        resolves_to(r, segments@, *reciter, root@, present_set(existing@)),
{
    if segments.len() == 0 {
        return Resolution::Missing { count: 0 };
    }
    let ghost present = present_set(existing@);
    let ghost want = paths_of(segments@, *reciter, root@);
    let paths = per_ayah_paths(segments, reciter, root);
    let mut all_present = true;
    let mut i: usize = 0;
    while i < paths.len()
        invariant
            i <= paths@.len(),
            strings_view(paths@) == want,
            present == present_set(existing@),
            all_present == forall|j: int| 0 <= j < i ==> present.contains(#[trigger] want[j]),
        decreases paths@.len() - i,
    {
        assert(want[i as int] == paths@[i as int]@);
        if !contains_path(existing, paths[i].as_str()) {
            all_present = false;
        }
        i += 1;
    }
    if all_present {
        return Resolution::Local(paths);
    }
    if segments.len() == 1 && *segments[0].range.start() == 1 && *segments[0].range.end()
        == segments[0].surah.ayah_count {
        assert(segments@[0].fresh());
        let whole = whole_surah_local_path(&segments[0].surah, reciter, root);
        if contains_path(existing, whole.as_str()) {
            return Resolution::WholeSurahFallback(whole);
        }
    }
    let missing = missing_files_among(segments, reciter, root, existing);
    assert(files_view(missing@).len() == missing@.len());
    Resolution::Missing { count: missing.len() }
}

/// Calls `std::path::Path::is_file`. Nothing is stated of the answer: it
/// depends on the file system at the moment of the call.
#[verifier::external_body]
fn path_is_file(path: &str) -> bool {
    std::path::Path::new(path).is_file()
}

/// `probe`, asked about a string whose characters are `path`, may answer `b`.
pub open spec fn probe_gives<F: Fn(&str) -> bool>(probe: F, path: Seq<char>, b: bool) -> bool {
    exists|x: &str| x@ == path && call_ensures(probe, (x,), b)
}

/// `present` holds exactly the paths among `candidates` that `probe` was found
/// to accept: each candidate is in `present` only if the probe said yes to it,
/// and outside it only if the probe said no.
pub open spec fn observed<F: Fn(&str) -> bool>(
    probe: F,
    candidates: Seq<Seq<char>>,
    present: Set<Seq<char>>,
) -> bool {
    &&& forall|i: int|
        0 <= i < candidates.len() ==> probe_gives(probe, candidates[i], #[trigger] present.contains(candidates[i]))
    &&& forall|p: Seq<char>| #[trigger] present.contains(p) ==> candidates.contains(p)
}

/// The paths among `candidates` that `probe` accepts, each asked once.
fn existing_files_by<F: Fn(&str) -> bool>(candidates: &Vec<String>, probe: &F) -> (r: Vec<String>)
    requires
        forall|x: &str| call_requires(*probe, (x,)),
    ensures
        r@.len() <= candidates@.len(),
        forall|k: int| 0 <= k < r@.len() ==> candidates@.contains(#[trigger] r@[k]),
        observed(*probe, strings_view(candidates@), present_set(r@)),
{
    let ghost cands = strings_view(candidates@);
    let mut existing: Vec<String> = Vec::new();
    let mut i: usize = 0;
    while i < candidates.len()
        invariant
            i <= candidates@.len(),
            cands == strings_view(candidates@),
            forall|x: &str| call_requires(*probe, (x,)),
            existing@.len() <= i,
            forall|k: int| 0 <= k < existing@.len() ==> candidates@.contains(#[trigger] existing@[k]),
            forall|k: int| 0 <= k < existing@.len() ==> probe_gives(*probe, (#[trigger] existing@[k])@, true),
            forall|j: int| 0 <= j < i ==> probe_gives(*probe, cands[j], #[trigger] present_set(existing@).contains(cands[j])),
        decreases candidates@.len() - i,
    {
        let x = candidates[i].as_str();
        let answer = probe(x);
        let ghost before = existing@;
        if answer {
            let c = candidates[i].clone();
            assert(candidates@.contains(c));
            existing.push(c);
        }
        proof {
            assert(x@ == cands[i as int]);
            assert forall|j: int| 0 <= j <= i implies probe_gives(*probe, cands[j], #[trigger] present_set(existing@).contains(cands[j])) by {
                if answer {
                    if cands[j] == cands[i as int] {
                        assert(existing@[existing@.len() - 1]@ == cands[j]);
                        assert(present_set(existing@).contains(cands[j]));
                    } else {
                        assert(present_set(existing@).contains(cands[j]) == present_set(before).contains(cands[j])) by {
                            if present_set(existing@).contains(cands[j]) {
                                let k = choose|k: int| 0 <= k < existing@.len() && existing@[k]@ == cands[j];
                                assert(k < before.len());
                                assert(before[k] == existing@[k]);
                            }
                            if present_set(before).contains(cands[j]) {
                                let k = choose|k: int| 0 <= k < before.len() && before[k]@ == cands[j];
                                assert(existing@[k] == before[k]);
                            }
                        }
                    }
                } else {
                    if j == i {
                        if present_set(existing@).contains(cands[j]) {
                            let k = choose|k: int| 0 <= k < existing@.len() && existing@[k]@ == cands[j];
                            assert(probe_gives(*probe, existing@[k]@, true));
                        }
                    }
                }
            }
        }
        i += 1;
    }
    proof {
        assert forall|p: Seq<char>| #[trigger] present_set(existing@).contains(p) implies cands.contains(p) by {
            let k = choose|k: int| 0 <= k < existing@.len() && existing@[k]@ == p;
            let j = choose|j: int| 0 <= j < candidates@.len() && candidates@[j] == existing@[k];
            assert(cands[j] == p);
        }
    }
    existing
}

/// The disk check of a path whose characters are `path` was made and answered
/// `b` (`true`: it is a file).
pub closed spec fn disk_answer(path: Seq<char>, b: bool) -> bool {
    probe_gives(path_is_file, path, b)
}

/// `present` holds exactly the paths among `candidates` that the disk check
/// found to be files: each candidate was checked, and it is in `present` when
/// the check said yes and outside it when the check said no.
pub open spec fn observed_on_disk(candidates: Seq<Seq<char>>, present: Set<Seq<char>>) -> bool {
    &&& forall|i: int|
        0 <= i < candidates.len() ==> disk_answer(candidates[i], #[trigger] present.contains(candidates[i]))
    &&& forall|p: Seq<char>| #[trigger] present.contains(p) ==> candidates.contains(p)
}

/// The paths among `candidates` that are files on disk right now.
fn existing_files(candidates: &Vec<String>) -> (r: Vec<String>)
    ensures
        r@.len() <= candidates@.len(),
        forall|k: int| 0 <= k < r@.len() ==> candidates@.contains(#[trigger] r@[k]),
        observed_on_disk(strings_view(candidates@), present_set(r@)),
{
    existing_files_by(candidates, &path_is_file)
}

/// The paths [`resolve`] asks the disk about: every track path and, for a
/// one-segment request, its whole-surah file.
pub open spec fn resolve_candidates(segs: Seq<PlaybackSegment>, reciter: Reciter, root: Seq<char>) -> Seq<
    Seq<char>,
> {
    if segs.len() == 1 {
        paths_of(segs, reciter, root).push(whole_surah_path_spec(segs[0].surah, reciter, root))
    } else {
        paths_of(segs, reciter, root)
    }
}

/// Resolve a playback request against the local files: the answer is the one
/// [`resolve_among`] gives for the files found on disk while checking. Every
/// track path, and the whole-surah file of a one-segment request, is checked
/// on disk, and a path counts as present exactly when the check found it.
pub fn resolve(segments: &[PlaybackSegment], reciter: &Reciter, root: &str) -> (r: Resolution)
    requires
        all_fresh(segments@),
    ensures
        exists|present: Set<Seq<char>>|
            observed_on_disk(resolve_candidates(segments@, *reciter, root@), present) && resolves_to(
                r,
                segments@,
                *reciter,
                root@,
                present,
            ),
{
    let mut candidates = per_ayah_paths(segments, reciter, root);
    if segments.len() == 1 {
        let whole = whole_surah_local_path(&segments[0].surah, reciter, root);
        assert(segments@[0].fresh());
        let ghost before = candidates@;
        candidates.push(whole);
        assert(strings_view(candidates@) =~= strings_view(before).push(whole@));
    }
    assert(strings_view(candidates@) == resolve_candidates(segments@, *reciter, root@));
    let existing = existing_files(&candidates);
    let r = resolve_among(segments, reciter, root, existing.as_slice());
    assert(resolves_to(r, segments@, *reciter, root@, present_set(existing@)));
    r
}

/// Every per-ayah (and bismillah) file the request needs that is not on disk,
/// de-duplicated: the answer [`missing_files_among`] gives for the files found
/// on disk while checking. Every track path is checked on disk, and a path
/// counts as present exactly when the check found it. Drives both the
/// "Missing" count and the downloader.
pub fn missing_files(segments: &[PlaybackSegment], reciter: &Reciter, root: &str) -> (r: Vec<
    MissingFile,
>)
    requires
        all_fresh(segments@),
    ensures
        exists|present: Set<Seq<char>>|
            observed_on_disk(paths_of(segments@, *reciter, root@), present) && files_view(r@)
                == missing_among(files_of(segments@, *reciter, root@), present),
{
    let candidates = per_ayah_paths(segments, reciter, root);
    let existing = existing_files(&candidates);
    let r = missing_files_among(segments, reciter, root, existing.as_slice());
    assert(files_view(r@) == missing_among(
        files_of(segments@, *reciter, root@),
        present_set(existing@),
    ));
    r
}


/// The number of tracks `segs` plays: each segment's ayahs, plus its
/// bismillah clip where one is prepended.
pub open spec fn track_total(segs: Seq<PlaybackSegment>) -> int
    decreases segs.len(),
{
    if segs.len() == 0 {
        0
    } else {
        track_total(segs.drop_last()) + slot_count(segs.last())
    }
}

/// One label, one path and one file per track.
proof fn lemma_track_counts(segs: Seq<PlaybackSegment>, reciter: Reciter, root: Seq<char>)
    ensures
        labels_of(segs).len() == paths_of(segs, reciter, root).len(),
        paths_of(segs, reciter, root).len() == files_of(segs, reciter, root).len(),
        files_of(segs, reciter, root).len() == track_total(segs),
    decreases segs.len(),
{
    if segs.len() > 0 {
        lemma_track_counts(segs.drop_last(), reciter, root);
        assert(slot_count(segs.last()) >= 0);
    }
}

/// Track `i` of `segs` is slot `k` of segment `j`: its label and its file both
/// come from that one slot.
pub open spec fn track_from_slot(
    segs: Seq<PlaybackSegment>,
    reciter: Reciter,
    root: Seq<char>,
    i: int,
    j: int,
    k: int,
) -> bool {
    &&& 0 <= j < segs.len()
    &&& 0 <= k < slot_count(segs[j])
    &&& labels_of(segs)[i] == slot_label(segs[j], k)
    &&& files_of(segs, reciter, root)[i] == slot_file(segs[j], reciter, root, k)
}

/// Track `i` of `segs` comes from some slot of some segment.
pub open spec fn has_slot(segs: Seq<PlaybackSegment>, reciter: Reciter, root: Seq<char>, i: int) -> bool {
    exists|j: int, k: int| track_from_slot(segs, reciter, root, i, j, k)
}

/// Every track of `segs` comes from one slot of one segment.
proof fn lemma_tracks_from_slots(segs: Seq<PlaybackSegment>, reciter: Reciter, root: Seq<char>)
    ensures
        forall|i: int| 0 <= i < labels_of(segs).len() ==> #[trigger] has_slot(segs, reciter, root, i),
    decreases segs.len(),
{
    lemma_track_counts(segs, reciter, root);
    if segs.len() > 0 {
        let d = segs.drop_last();
        let last = segs.last();
        lemma_tracks_from_slots(d, reciter, root);
        lemma_track_counts(d, reciter, root);
        let n = labels_of(d).len() as int;
        assert forall|i: int| 0 <= i < labels_of(segs).len() implies #[trigger] has_slot(segs, reciter, root, i) by {
            if i < n {
                assert(has_slot(d, reciter, root, i));
                let (j, k) = choose|j: int, k: int| track_from_slot(d, reciter, root, i, j, k);
                assert(d[j] == segs[j]);
                assert(track_from_slot(segs, reciter, root, i, j, k));
            } else {
                let j = segs.len() - 1;
                let k = i - n;
                assert(segs[j] == last);
                assert(track_from_slot(segs, reciter, root, i, j, k));
            }
        }
    }
}

/// A `surah:ayah` label is never the bismillah label.
proof fn lemma_ayah_label_not_bismillah(surah: int, ayah: int)
    requires
        surah >= 0,
        ayah >= 0,
    ensures
        ayah_label(surah, ayah) != "Bismillah"@,
{
    reveal_strlit(":");
    reveal_strlit("Bismillah");
    let c = decimal(surah as nat).len() as int;
    assert(ayah_label(surah, ayah)[c] == ':');
    let b = seq!['B', 'i', 's', 'm', 'i', 'l', 'l', 'a', 'h'];
    assert("Bismillah"@ =~= b);
    if ayah_label(surah, ayah) == "Bismillah"@ {
        assert(0 <= c < 9);
        assert(b[c] == ':');
        assert(false);
    }
}

/// Law: the label list runs parallel to the path list, track by track: both
/// hold one entry per track (each segment's ayahs plus its bismillah clip);
/// the track labelled `"Bismillah"` plays the bismillah clip, and the track
/// labelled `"<surah>:<ayah>"` plays that ayah's per-ayah file.
pub proof fn lemma_labels_parallel_paths(segs: Seq<PlaybackSegment>, reciter: Reciter, root: Seq<char>)
    ensures
        labels_of(segs).len() == paths_of(segs, reciter, root).len(),
        paths_of(segs, reciter, root).len() == track_total(segs),
        forall|i: int|
            0 <= i < labels_of(segs).len() && labels_of(segs)[i] == "Bismillah"@ ==> (#[trigger] paths_of(
                segs,
                reciter,
                root,
            )[i]) == bismillah_path_spec(reciter, root),
        forall|i: int, surah: u16, ayah: u16|
            #![trigger paths_of(segs, reciter, root)[i], ayah_label(surah as int, ayah as int)]
            0 <= i < labels_of(segs).len() && labels_of(segs)[i] == ayah_label(surah as int, ayah as int)
                ==> paths_of(segs, reciter, root)[i] == per_ayah_path_spec(
                reciter,
                surah as int,
                ayah as int,
                root,
            ),
{
    lemma_track_counts(segs, reciter, root);
    lemma_tracks_from_slots(segs, reciter, root);
    let l = labels_of(segs);
    let p = paths_of(segs, reciter, root);
    assert forall|i: int| 0 <= i < l.len() && l[i] == "Bismillah"@ implies #[trigger] p[i]
        == bismillah_path_spec(reciter, root) by {
        assert(has_slot(segs, reciter, root, i));
        let (j, k) = choose|j: int, k: int| track_from_slot(segs, reciter, root, i, j, k);
        let seg = segs[j];
        if !is_bismillah_slot(seg, k) {
            lemma_ayah_label_not_bismillah(seg.surah.number as int, slot_ayah(seg, k));
        }
    }
    assert forall|i: int, surah: u16, ayah: u16|
        #![trigger p[i], ayah_label(surah as int, ayah as int)]
        0 <= i < l.len() && l[i] == ayah_label(surah as int, ayah as int) implies p[i]
        == per_ayah_path_spec(reciter, surah as int, ayah as int, root) by {
        assert(has_slot(segs, reciter, root, i));
        let (j, k) = choose|j: int, k: int| track_from_slot(segs, reciter, root, i, j, k);
        let seg = segs[j];
        if is_bismillah_slot(seg, k) {
            lemma_ayah_label_not_bismillah(surah as int, ayah as int);
        } else {
            let a = slot_ayah(seg, k);
            assert(0 <= a <= 65535);
            crate::app::lemma_track_label_roundtrip(seg.surah.number, a as u16);
            crate::app::lemma_track_label_roundtrip(surah, ayah);
        }
    }
}

/// Every absent file is named among the missing ones.
#[verifier::spinoff_prover]
proof fn lemma_missing_covers(files: Seq<FileSpec>, present: Set<Seq<char>>)
    ensures
        forall|k: int|
            0 <= k < files.len() && !present.contains((#[trigger] files[k]).local_path) ==> exists|i: int|
                0 <= i < missing_among(files, present).len() && (#[trigger] missing_among(files, present)[i]).local_path
                    == files[k].local_path,
    decreases files.len(),
{
    if files.len() > 0 {
        let d = files.drop_last();
        lemma_missing_covers(d, present);
        let prev0 = missing_among(d, present);
        let m0 = missing_among(files, present);
        assert forall|i: int| 0 <= i < prev0.len() implies m0[i] == prev0[i] by {}
        assert forall|k: int|
            0 <= k < files.len() && !present.contains((#[trigger] files[k]).local_path) implies exists|i: int|
                0 <= i < m0.len() && (#[trigger] m0[i]).local_path == files[k].local_path by {
            if k < d.len() {
                assert(files[k] == d[k]);
                let i = choose|i: int| 0 <= i < prev0.len() && (#[trigger] prev0[i]).local_path == d[k].local_path;
                assert(m0[i] == prev0[i]);
            } else {
                let f = files.last();
                let pv = prev0.map_values(|x: FileSpec| x.local_path);
                if pv.contains(f.local_path) {
                    let w = choose|w: int| 0 <= w < pv.len() && #[trigger] pv[w] == f.local_path;
                    assert(m0[w] == prev0[w]);
                    assert(m0[w].local_path == files[k].local_path);
                } else {
                    assert(m0[prev0.len() as int] == f);
                }
            }
        }
    }
}

/// Law: every file reported missing is needed by the request and absent from
/// disk, no path is reported twice, and nothing is missing exactly when every
/// needed path is present.
#[verifier::spinoff_prover]
pub proof fn lemma_missing_files_sound(files: Seq<FileSpec>, present: Set<Seq<char>>)
    ensures
        ({
            let m = missing_among(files, present);
            &&& forall|i: int|
                0 <= i < m.len() ==> !present.contains((#[trigger] m[i]).local_path) && files.contains(
                    m[i],
                )
            &&& forall|i: int, j: int|
                0 <= i < j < m.len() ==> (#[trigger] m[i]).local_path != (#[trigger] m[j]).local_path
            &&& m.len() <= files.len()
            &&& (m.len() == 0 <==> forall|k: int|
                0 <= k < files.len() ==> present.contains((#[trigger] files[k]).local_path))
            &&& forall|k: int|
                0 <= k < files.len() && !present.contains((#[trigger] files[k]).local_path) ==> exists|i: int|
                    0 <= i < m.len() && (#[trigger] m[i]).local_path == files[k].local_path
        }),
    decreases files.len(),
{
    lemma_missing_covers(files, present);
    if files.len() > 0 {
        let d = files.drop_last();
        lemma_missing_files_sound(d, present);
        let prev = missing_among(d, present);
        let m = missing_among(files, present);
        let f = files.last();
        assert forall|i: int| 0 <= i < prev.len() implies files.contains(#[trigger] prev[i]) by {
            let k = choose|k: int| 0 <= k < d.len() && d[k] == prev[i];
            assert(files[k] == d[k]);
        }
        if !present.contains(f.local_path) && !prev.map_values(|x: FileSpec| x.local_path).contains(
            f.local_path,
        ) {
            assert(files.contains(f)) by {
                assert(files[files.len() - 1] == f);
            }
            assert forall|i: int, j: int| 0 <= i < j < m.len() implies (#[trigger] m[i]).local_path
                != (#[trigger] m[j]).local_path by {
                if j == m.len() - 1 {
                    assert(prev.map_values(|x: FileSpec| x.local_path)[i] == prev[i].local_path);
                }
            }
        } else {
            if !present.contains(f.local_path) {
                let pv = prev.map_values(|x: FileSpec| x.local_path);
                let w = choose|w: int| 0 <= w < pv.len() && #[trigger] pv[w] == f.local_path;
                assert(prev[w].local_path == f.local_path);
                assert(prev.len() > 0);
            }
            if prev.len() == 0 {
                assert forall|k: int| 0 <= k < files.len() implies present.contains(
                    (#[trigger] files[k]).local_path,
                ) by {
                    if k < d.len() {
                        assert(files[k] == d[k]);
                    }
                }
            }
        }
        if m.len() == 0 {
            assert forall|k: int| 0 <= k < files.len() implies present.contains(
                (#[trigger] files[k]).local_path,
            ) by {
                if k < d.len() {
                    assert(files[k] == d[k]);
                }
            }
        }
        if forall|k: int| 0 <= k < files.len() ==> present.contains((#[trigger] files[k]).local_path) {
            assert forall|k: int| 0 <= k < d.len() implies present.contains(
                (#[trigger] d[k]).local_path,
            ) by {
                assert(files[k] == d[k]);
            }
            assert(present.contains(files[files.len() - 1].local_path));
        }
    }
}

/// Law: for any files on disk, the files a request reports missing are named
/// by distinct paths; each is a file the request plays and is absent from
/// disk; every absent file the request plays is named once; and nothing is
/// missing exactly when every track is on disk.
pub proof fn lemma_missing_files_of_request(
    segs: Seq<PlaybackSegment>,
    reciter: Reciter,
    root: Seq<char>,
    present: Set<Seq<char>>,
)
    ensures
        ({
            let files = files_of(segs, reciter, root);
            let m = missing_among(files, present);
            &&& forall|i: int, j: int|
                0 <= i < j < m.len() ==> (#[trigger] m[i]).local_path != (#[trigger] m[j]).local_path
            &&& forall|i: int|
                0 <= i < m.len() ==> !present.contains((#[trigger] m[i]).local_path) && files.contains(m[i])
            &&& forall|k: int|
                0 <= k < files.len() && !present.contains((#[trigger] files[k]).local_path) ==> exists|i: int|
                    0 <= i < m.len() && (#[trigger] m[i]).local_path == files[k].local_path
            &&& (m.len() == 0 <==> forall|k: int|
                0 <= k < paths_of(segs, reciter, root).len() ==> present.contains(
                    #[trigger] paths_of(segs, reciter, root)[k],
                ))
        }),
{
    let files = files_of(segs, reciter, root);
    lemma_missing_files_sound(files, present);
    lemma_track_counts(segs, reciter, root);
    let p = paths_of(segs, reciter, root);
    assert forall|k: int| 0 <= k < p.len() implies p[k] == files[k].local_path by {}
    if forall|k: int| 0 <= k < p.len() ==> present.contains(#[trigger] p[k]) {
        assert forall|k: int| 0 <= k < files.len() implies present.contains((#[trigger] files[k]).local_path) by {
            assert(p[k] == files[k].local_path);
        }
    }
    if forall|k: int| 0 <= k < files.len() ==> present.contains((#[trigger] files[k]).local_path) {
        assert forall|k: int| 0 <= k < p.len() implies present.contains(#[trigger] p[k]) by {
            assert(present.contains(files[k].local_path));
        }
    }
}

/// Law: with the disk state observed by the disk check, every file reported
/// missing was checked and found not to be a file, and every track the check
/// found absent is reported, each path once.
pub proof fn lemma_missing_were_found_absent(
    segs: Seq<PlaybackSegment>,
    reciter: Reciter,
    root: Seq<char>,
    present: Set<Seq<char>>,
)
    requires
        observed_on_disk(paths_of(segs, reciter, root), present),
    ensures
        ({
            let m = missing_among(files_of(segs, reciter, root), present);
            let paths = paths_of(segs, reciter, root);
            &&& forall|i: int| 0 <= i < m.len() ==> disk_answer((#[trigger] m[i]).local_path, false)
            &&& forall|k: int|
                0 <= k < paths.len() && !present.contains(#[trigger] paths[k]) ==> exists|i: int|
                    0 <= i < m.len() && (#[trigger] m[i]).local_path == paths[k]
            &&& forall|i: int, j: int|
                0 <= i < j < m.len() ==> (#[trigger] m[i]).local_path != (#[trigger] m[j]).local_path
        }),
{
    let files = files_of(segs, reciter, root);
    let paths = paths_of(segs, reciter, root);
    let m = missing_among(files, present);
    lemma_missing_files_of_request(segs, reciter, root, present);
    lemma_track_counts(segs, reciter, root);
    assert forall|i: int| 0 <= i < m.len() implies disk_answer((#[trigger] m[i]).local_path, false) by {
        let k = choose|k: int| 0 <= k < files.len() && files[k] == m[i];
        assert(paths[k] == files[k].local_path);
        assert(disk_answer(paths[k], present.contains(paths[k])));
    }
    assert forall|k: int| 0 <= k < paths.len() && !present.contains(#[trigger] paths[k]) implies exists|i: int|
        0 <= i < m.len() && (#[trigger] m[i]).local_path == paths[k] by {
        assert(paths[k] == files[k].local_path);
    }
}

/// Law: what resolving a non-empty request gives, for the files on disk
/// `present`: the per-ayah tracks exactly when all of them are on disk; else
/// the whole-surah file when the request is one full surah and that file is on
/// disk; else a count of the files to download, which is at least one.
#[verifier::spinoff_prover]
pub proof fn lemma_resolve_outcomes(
    r: Resolution,
    segs: Seq<PlaybackSegment>,
    reciter: Reciter,
    root: Seq<char>,
    present: Set<Seq<char>>,
)
    requires
        segs.len() > 0,
        resolves_to(r, segs, reciter, root, present),
    ensures
        ({
            let paths = paths_of(segs, reciter, root);
            let whole = whole_surah_path_spec(segs[0].surah, reciter, root);
            let all_on_disk = forall|i: int| 0 <= i < paths.len() ==> present.contains(#[trigger] paths[i]);
            &&& (r is Local <==> all_on_disk)
            &&& (r matches Resolution::Local(v) ==> strings_view(v@) == paths)
            &&& (r is WholeSurahFallback <==> (!all_on_disk && segs.len() == 1 && segs[0].first_ayah() == 1
                && segs[0].last_ayah() == segs[0].surah.ayah_count && present.contains(whole)))
            &&& (r matches Resolution::WholeSurahFallback(p) ==> p@ == whole && present.contains(p@))
            &&& (r matches Resolution::Missing { count } ==> 1 <= count <= paths.len())
        }),
{
    let files = files_of(segs, reciter, root);
    let m = missing_among(files, present);
    lemma_track_counts(segs, reciter, root);
    assert(m.len() <= files.len()) by {
        lemma_missing_files_sound(files, present);
    }
    assert((m.len() == 0) == (forall|i: int|
        0 <= i < paths_of(segs, reciter, root).len() ==> present.contains(
            #[trigger] paths_of(segs, reciter, root)[i],
        ))) by {
        lemma_missing_files_of_request(segs, reciter, root, present);
    }
}

/// Law: the bismillah clip is ayah 1 of surah 1, locally and remotely.
pub proof fn lemma_bismillah_is_first_ayah(reciter: Reciter, root: Seq<char>)
    ensures
        bismillah_path_spec(reciter, root) == per_ayah_path_spec(reciter, 1, 1, root),
        bismillah_url_spec(reciter) == per_ayah_url_spec(reciter, 1, 1),
{
    reveal_strlit("001");
    reveal_strlit("001.mp3");
    reveal_strlit(".mp3");
    reveal_strlit("/001001.mp3");
    reveal_strlit("/");
    assert(decimal(1) == seq!['1']);
    assert(pad3(decimal(1)) =~= seq!['0', '0', '1']);
    assert("001"@ =~= pad3(decimal(1)));
    assert("001.mp3"@ =~= pad3(decimal(1)) + ".mp3"@);
    assert("/001001.mp3"@ =~= "/"@ + pad3(decimal(1)) + pad3(decimal(1)) + ".mp3"@);
    assert(bismillah_url_spec(reciter) =~= per_ayah_url_spec(reciter, 1, 1));
}

} // verus!
