//! Playback segmentation.
//!
//! A request spanning multiple surahs is broken into one segment per surah: the
//! first surah clamps the lower ayah bound, the last clamps the upper bound, and
//! every middle surah plays in full.

use std::ops::RangeInclusive;

use vstd::prelude::*;
use vstd::std_specs::range::RangeInclusiveView;

use crate::domain::catalog::Surah;
use crate::text::{clamp, clamp_u16};

verus! {

/// `RangeInclusive::start` returns the lower bound given at construction.
pub assume_specification<Idx>[ RangeInclusive::<Idx>::start ](r: &RangeInclusive<Idx>) -> (s: &Idx)
    ensures
        !r@.exhausted ==> *s == r@.start,
;

/// `RangeInclusive::end` returns the upper bound given at construction.
pub assume_specification<Idx>[ RangeInclusive::<Idx>::end ](r: &RangeInclusive<Idx>) -> (e: &Idx)
    ensures
        !r@.exhausted ==> *e == r@.end,
;

/// One contiguous span of ayahs within a single surah.
#[derive(Debug, PartialEq, Eq)]
pub struct PlaybackSegment {
    pub surah: Surah,
    pub range: RangeInclusive<u16>,
}

impl PlaybackSegment {
    /// First ayah of the segment.
    pub open spec fn first_ayah(self) -> int {
        self.range@.start as int
    }

    /// Last ayah of the segment.
    pub open spec fn last_ayah(self) -> int {
        self.range@.end as int
    }

    /// The segment's range was built directly from its bounds, never iterated.
    pub open spec fn fresh(self) -> bool {
        !self.range@.exhausted
    }
}

/// What a segment holds, mathematically: the surah and its inclusive ayah bounds.
pub struct SegmentSpec {
    pub surah: Surah,
    pub start: int,
    pub end: int,
}

/// The surahs whose number falls in `lo..=hi`, in catalog order.
pub open spec fn span_filter(surahs: Seq<Surah>, lo: u16, hi: u16) -> Seq<Surah> {
    surahs.filter(|s: Surah| lo <= s.number && s.number <= hi)
}

/// Insert `x` into `sorted` after every element whose number is `<=` its own
/// (the step of a stable insertion sort).
pub open spec fn insert_by_number(sorted: Seq<Surah>, x: Surah) -> Seq<Surah>
    decreases sorted.len(),
{
    if sorted.len() == 0 {
        seq![x]
    } else if sorted.last().number <= x.number {
        sorted.push(x)
    } else {
        insert_by_number(sorted.drop_last(), x).push(sorted.last())
    }
}

/// `surahs` stably sorted by number (what `sort_by_key(|s| s.number)` gives).
pub open spec fn sort_by_number(surahs: Seq<Surah>) -> Seq<Surah>
    decreases surahs.len(),
{
    if surahs.len() == 0 {
        Seq::empty()
    } else {
        insert_by_number(sort_by_number(surahs.drop_last()), surahs.last())
    }
}

/// The surahs a request selects, in playback order.
pub open spec fn selection(surahs: Seq<Surah>, from_surah: u16, to_surah: u16) -> Seq<Surah> {
    let lo = if from_surah <= to_surah { from_surah } else { to_surah };
    let hi = if from_surah <= to_surah { to_surah } else { from_surah };
    sort_by_number(span_filter(surahs, lo, hi))
}

/// The inclusive ayah bounds a selected surah plays, given the numbers of the
/// first and last selected surahs.
pub open spec fn segment_bounds(
    s: Surah,
    first_number: u16,
    last_number: u16,
    from_ayah: u16,
    to_ayah: u16,
) -> (int, int) {
    let count = s.ayah_count as int;
    if first_number == last_number {
        let lower = clamp(from_ayah as int, 1, count);
        (lower, clamp(to_ayah as int, lower, count))
    } else if s.number == first_number {
        (clamp(from_ayah as int, 1, count), count)
    } else if s.number == last_number {
        (1, clamp(to_ayah as int, 1, count))
    } else {
        (1, count)
    }
}

/// Segments for the selected surahs `sel` (a prefix of the full selection),
/// dropping any whose range came out empty.
pub open spec fn segments_of(
    sel: Seq<Surah>,
    first_number: u16,
    last_number: u16,
    from_ayah: u16,
    to_ayah: u16,
) -> Seq<SegmentSpec>
    decreases sel.len(),
{
    if sel.len() == 0 {
        Seq::empty()
    } else {
        let prev = segments_of(sel.drop_last(), first_number, last_number, from_ayah, to_ayah);
        let (start, end) = segment_bounds(sel.last(), first_number, last_number, from_ayah, to_ayah);
        if start <= end {
            prev.push(SegmentSpec { surah: sel.last(), start, end })
        } else {
            prev
        }
    }
}

/// The segments a request `(from_surah, to_surah, from_ayah, to_ayah)` plays.
pub open spec fn playback_segments_spec(
    surahs: Seq<Surah>,
    from_surah: u16,
    to_surah: u16,
    from_ayah: u16,
    to_ayah: u16,
) -> Seq<SegmentSpec> {
    let sel = selection(surahs, from_surah, to_surah);
    if sel.len() == 0 {
        Seq::empty()
    } else {
        segments_of(sel, sel[0].number, sel.last().number, from_ayah, to_ayah)
    }
}

/// The request can be segmented without a clamp on an empty ayah range: the
/// first and last selected surahs have at least one ayah.
pub open spec fn segmentable(surahs: Seq<Surah>, from_surah: u16, to_surah: u16) -> bool {
    let sel = selection(surahs, from_surah, to_surah);
    forall|i: int|
        0 <= i < sel.len() && (sel[i].number == sel[0].number || sel[i].number
            == sel.last().number) ==> #[trigger] sel[i].ayah_count >= 1
}

/// `segs` holds exactly the segments described by `spec`.
pub open spec fn matches_spec(segs: Seq<PlaybackSegment>, spec: Seq<SegmentSpec>) -> bool {
    &&& segs.len() == spec.len()
    &&& forall|i: int|
        0 <= i < segs.len() ==> {
            &&& (#[trigger] segs[i]).surah == spec[i].surah
            &&& segs[i].fresh()
            &&& segs[i].first_ayah() == spec[i].start
            &&& segs[i].last_ayah() == spec[i].end
        }
}

proof fn lemma_insert_at(sorted: Seq<Surah>, x: Surah, pos: int)
    requires
        0 <= pos <= sorted.len(),
        forall|j: int| pos <= j < sorted.len() ==> sorted[j].number > x.number,
        pos > 0 ==> sorted[pos - 1].number <= x.number,
    ensures
        insert_by_number(sorted, x) == sorted.take(pos).push(x) + sorted.skip(pos),
    decreases sorted.len(),
{
    if sorted.len() == 0 {
        assert(sorted.take(pos).push(x) + sorted.skip(pos) =~= seq![x]);
    } else if sorted.last().number <= x.number {
        assert(pos == sorted.len());
        assert(sorted.take(pos).push(x) + sorted.skip(pos) =~= sorted.push(x));
    } else {
        let d = sorted.drop_last();
        assert(pos < sorted.len());
        lemma_insert_at(d, x, pos);
        assert(d.take(pos).push(x) + d.skip(pos) =~= (sorted.take(pos).push(x)
            + sorted.skip(pos)).drop_last());
        assert((d.take(pos).push(x) + d.skip(pos)).push(sorted.last()) =~= sorted.take(pos).push(x)
            + sorted.skip(pos));
    }
}

/// Numbers never decrease along `s`.
pub open spec fn sorted_by_number(s: Seq<Surah>) -> bool {
    forall|i: int, j: int| 0 <= i < j < s.len() ==> s[i].number <= s[j].number
}

proof fn lemma_insert_sorted(sorted: Seq<Surah>, x: Surah)
    requires
        sorted_by_number(sorted),
    ensures
        sorted_by_number(insert_by_number(sorted, x)),
        insert_by_number(sorted, x).to_multiset() == sorted.to_multiset().insert(x),
        insert_by_number(sorted, x).len() == sorted.len() + 1,
    decreases sorted.len(),
{
    broadcast use vstd::seq_lib::group_seq_properties;
    if sorted.len() == 0 {
        assert(seq![x] =~= Seq::<Surah>::empty().push(x));
    } else if sorted.last().number <= x.number {
    } else {
        let d = sorted.drop_last();
        lemma_insert_sorted(d, x);
        let r = insert_by_number(d, x);
        assert(sorted =~= d.push(sorted.last()));
        assert forall|k: int| 0 <= k < r.len() implies r[k].number <= sorted.last().number by {
            assert(r.to_multiset().count(r[k]) > 0);
            assert(d.to_multiset().insert(x).count(r[k]) > 0);
            if r[k] != x {
                assert(d.to_multiset().count(r[k]) > 0);
                assert(d.contains(r[k]));
            }
        }
    }
}

/// The stable sort is sorted and a permutation of its input.
pub proof fn lemma_sort_by_number(s: Seq<Surah>)
    ensures
        sorted_by_number(sort_by_number(s)),
        sort_by_number(s).to_multiset() == s.to_multiset(),
        sort_by_number(s).len() == s.len(),
    decreases s.len(),
{
    broadcast use vstd::seq_lib::group_seq_properties;
    if s.len() > 0 {
        lemma_sort_by_number(s.drop_last());
        lemma_insert_sorted(sort_by_number(s.drop_last()), s.last());
        assert(s =~= s.drop_last().push(s.last()));
    }
}

proof fn lemma_filter_step(s: Seq<Surah>, i: int, lo: u16, hi: u16)
    requires
        0 <= i < s.len(),
    ensures
        span_filter(s.take(i + 1), lo, hi) == if lo <= s[i].number && s[i].number <= hi {
            span_filter(s.take(i), lo, hi).push(s[i])
        } else {
            span_filter(s.take(i), lo, hi)
        },
{
    reveal_with_fuel(Seq::filter, 1);
    assert(s.take(i + 1).drop_last() =~= s.take(i));
}

proof fn lemma_segments_of_shape(
    sel: Seq<Surah>,
    first_number: u16,
    last_number: u16,
    from_ayah: u16,
    to_ayah: u16,
)
    requires
        sorted_by_number(sel),
    ensures
        ({
            let segs = segments_of(sel, first_number, last_number, from_ayah, to_ayah);
            &&& forall|i: int|
                0 <= i < segs.len() ==> {
                    &&& sel.contains(#[trigger] segs[i].surah)
                    &&& segs[i].start <= segs[i].end
                    &&& (segs[i].start, segs[i].end) == segment_bounds(
                        segs[i].surah,
                        first_number,
                        last_number,
                        from_ayah,
                        to_ayah,
                    )
                }
            &&& forall|i: int, j: int|
                0 <= i < j < segs.len() ==> segs[i].surah.number <= segs[j].surah.number
        }),
    decreases sel.len(),
{
    if sel.len() > 0 {
        let d = sel.drop_last();
        lemma_segments_of_shape(d, first_number, last_number, from_ayah, to_ayah);
        let prev = segments_of(d, first_number, last_number, from_ayah, to_ayah);
        assert forall|i: int| 0 <= i < prev.len() implies sel.contains(#[trigger] prev[i].surah)
            && prev[i].surah.number <= sel.last().number by {
            let j = choose|j: int| 0 <= j < d.len() && d[j] == prev[i].surah;
            assert(sel[j] == d[j]);
        }
    }
}

/// Law: every planned segment is a non-empty ayah span inside its surah, its
/// surah lies in the requested surah span, segments come in ascending surah
/// order, and every surah strictly between the first and the last selected one
/// plays in full.
pub proof fn lemma_segments_well_formed(
    surahs: Seq<Surah>,
    from_surah: u16,
    to_surah: u16,
    from_ayah: u16,
    to_ayah: u16,
)
    requires
        segmentable(surahs, from_surah, to_surah),
    ensures
        ({
            let segs = playback_segments_spec(surahs, from_surah, to_surah, from_ayah, to_ayah);
            let sel = selection(surahs, from_surah, to_surah);
            let lo = if from_surah <= to_surah { from_surah } else { to_surah };
            let hi = if from_surah <= to_surah { to_surah } else { from_surah };
            &&& forall|i: int|
                0 <= i < segs.len() ==> {
                    &&& 1 <= (#[trigger] segs[i]).start <= segs[i].end <= segs[i].surah.ayah_count
                    &&& lo <= segs[i].surah.number <= hi
                    &&& surahs.contains(segs[i].surah)
                    &&& (segs[i].surah.number != sel[0].number && segs[i].surah.number
                        != sel.last().number ==> segs[i].start == 1 && segs[i].end
                        == segs[i].surah.ayah_count)
                }
            &&& forall|i: int, j: int|
                0 <= i < j < segs.len() ==> segs[i].surah.number <= segs[j].surah.number
        }),
{
    broadcast use vstd::seq_lib::group_seq_properties;
    let lo = if from_surah <= to_surah { from_surah } else { to_surah };
    let hi = if from_surah <= to_surah { to_surah } else { from_surah };
    let filtered = span_filter(surahs, lo, hi);
    let sel = selection(surahs, from_surah, to_surah);
    lemma_sort_by_number(filtered);
    if sel.len() > 0 {
        lemma_segments_of_shape(sel, sel[0].number, sel.last().number, from_ayah, to_ayah);
        let segs = playback_segments_spec(surahs, from_surah, to_surah, from_ayah, to_ayah);
        assert forall|i: int| 0 <= i < segs.len() implies {
            &&& 1 <= (#[trigger] segs[i]).start <= segs[i].end <= segs[i].surah.ayah_count
            &&& lo <= segs[i].surah.number <= hi
            &&& surahs.contains(segs[i].surah)
        } by {
            let x = segs[i].surah;
            let j = choose|j: int| 0 <= j < sel.len() && sel[j] == x;
            assert(sel[0].number <= sel[j].number <= sel[sel.len() - 1].number);
            if x.number == sel[0].number || x.number == sel.last().number {
                assert(sel[j].ayah_count >= 1);
            }
            assert(sel.to_multiset().count(x) > 0);
            assert(filtered.contains(x));
            surahs.lemma_filter_contains_rev(|s: Surah| lo <= s.number && s.number <= hi, x);
            let m = choose|m: int| 0 <= m < filtered.len() && filtered[m] == x;
            surahs.lemma_filter_pred(|s: Surah| lo <= s.number && s.number <= hi, m);
        }
    }
}

/// Every surah has at least one ayah.
pub open spec fn ayahs_nonempty(surahs: Seq<Surah>) -> bool {
    forall|i: int| 0 <= i < surahs.len() ==> (#[trigger] surahs[i]).ayah_count >= 1
}

/// A catalog whose surahs all have ayahs can segment any request.
pub proof fn lemma_nonempty_segmentable(surahs: Seq<Surah>, from_surah: u16, to_surah: u16)
    requires
        ayahs_nonempty(surahs),
    ensures
        segmentable(surahs, from_surah, to_surah),
{
    broadcast use vstd::seq_lib::group_seq_properties;
    let lo = if from_surah <= to_surah { from_surah } else { to_surah };
    let hi = if from_surah <= to_surah { to_surah } else { from_surah };
    let filtered = span_filter(surahs, lo, hi);
    let sel = selection(surahs, from_surah, to_surah);
    lemma_sort_by_number(filtered);
    assert forall|i: int| 0 <= i < sel.len() implies #[trigger] sel[i].ayah_count >= 1 by {
        let x = sel[i];
        assert(sel.to_multiset().count(x) > 0);
        assert(filtered.contains(x));
        let m = choose|m: int| 0 <= m < filtered.len() && filtered[m] == x;
        surahs.lemma_filter_contains_rev(|s: Surah| lo <= s.number && s.number <= hi, x);
        let k = choose|k: int| 0 <= k < surahs.len() && surahs[k] == x;
        assert(surahs[k].ayah_count >= 1);
    }
}

/// Whether every surah in `surahs` has at least one ayah.
pub fn all_surahs_have_ayahs(surahs: &[Surah]) -> (r: bool)
    ensures
        r == ayahs_nonempty(surahs@),
{
    let mut i: usize = 0;
    while i < surahs.len()
        invariant
            i <= surahs@.len(),
            forall|j: int| 0 <= j < i ==> (#[trigger] surahs@[j]).ayah_count >= 1,
        decreases surahs@.len() - i,
    {
        if surahs[i].ayah_count == 0 {
            assert(surahs@[i as int].ayah_count < 1);
            return false;
        }
        i += 1;
    }
    true
}

/// Law: how each surah of a request is cut. For a request within one surah,
/// the range starts at `from_ayah` and ends at `to_ayah`, each kept within
/// `1..=ayah_count` and the end never before the start. For a request over
/// several surahs, the first surah plays from `from_ayah` (kept within its
/// ayahs) to its end, and the last surah always plays: from ayah 1 to
/// `to_ayah` kept within its ayahs, whatever `from_ayah` is.
pub proof fn lemma_segment_ranges(
    surahs: Seq<Surah>,
    from_surah: u16,
    to_surah: u16,
    from_ayah: u16,
    to_ayah: u16,
)
    requires
        segmentable(surahs, from_surah, to_surah),
    ensures
        ({
            let segs = playback_segments_spec(surahs, from_surah, to_surah, from_ayah, to_ayah);
            let sel = selection(surahs, from_surah, to_surah);
            let (f, t) = (from_ayah as int, to_ayah as int);
            &&& sel.len() > 0 && sel[0].number == sel.last().number ==> forall|i: int|
                0 <= i < segs.len() ==> {
                    let c = (#[trigger] segs[i]).surah.ayah_count as int;
                    let start = if f < 1 { 1 } else if f > c { c } else { f };
                    &&& segs[i].start == start
                    &&& segs[i].end == (if t < start { start } else if t > c { c } else { t })
                }
            &&& sel.len() > 0 && sel[0].number != sel.last().number ==> {
                &&& forall|i: int|
                    0 <= i < segs.len() && (#[trigger] segs[i]).surah.number == sel[0].number ==> {
                        let c = segs[i].surah.ayah_count as int;
                        segs[i].start == (if f < 1 { 1 } else if f > c { c } else { f }) && segs[i].end == c
                    }
                &&& forall|i: int|
                    0 <= i < segs.len() && (#[trigger] segs[i]).surah.number == sel.last().number ==> {
                        let c = segs[i].surah.ayah_count as int;
                        segs[i].start == 1 && segs[i].end == (if t < 1 { 1 } else if t > c { c } else { t })
                    }
                &&& segs.len() > 0
                &&& segs.last().surah == sel.last()
                &&& segs.last().start == 1
                &&& segs.last().end == (if t < 1 { 1 } else if t > sel.last().ayah_count { sel.last().ayah_count as int } else { t })
            }
        }),
{
    let lo = if from_surah <= to_surah { from_surah } else { to_surah };
    let hi = if from_surah <= to_surah { to_surah } else { from_surah };
    let sel = selection(surahs, from_surah, to_surah);
    lemma_sort_by_number(span_filter(surahs, lo, hi));
    if sel.len() > 0 {
        let segs = playback_segments_spec(surahs, from_surah, to_surah, from_ayah, to_ayah);
        assert(segs == segments_of(sel, sel[0].number, sel.last().number, from_ayah, to_ayah));
        lemma_segments_of_shape(sel, sel[0].number, sel.last().number, from_ayah, to_ayah);
        assert forall|i: int| 0 <= i < segs.len() implies (segs[i].start, segs[i].end) == segment_bounds(
            segs[i].surah,
            sel[0].number,
            sel.last().number,
            from_ayah,
            to_ayah,
        ) by {
            assert(sel.contains(segs[i].surah));
        }
        if sel[0].number != sel.last().number {
            let last = sel.last();
            assert(last.number == sel[sel.len() - 1].number);
            assert(last.ayah_count >= 1);
            let (a, b) = segment_bounds(last, sel[0].number, sel.last().number, from_ayah, to_ayah);
            assert(a <= b);
            assert(segs.last().surah == last);
        }
    }
}

/// Law: where a request spans several surahs, the last surah's segment does
/// not depend on `from_ayah`: two requests that differ only there end alike.
pub proof fn lemma_last_surah_ignores_from_ayah(
    surahs: Seq<Surah>,
    from_surah: u16,
    to_surah: u16,
    from_ayah_a: u16,
    from_ayah_b: u16,
    to_ayah: u16,
)
    requires
        segmentable(surahs, from_surah, to_surah),
        selection(surahs, from_surah, to_surah).len() > 0,
        selection(surahs, from_surah, to_surah)[0].number != selection(surahs, from_surah, to_surah).last().number,
    ensures
        playback_segments_spec(surahs, from_surah, to_surah, from_ayah_a, to_ayah).last()
            == playback_segments_spec(surahs, from_surah, to_surah, from_ayah_b, to_ayah).last(),
{
    lemma_segment_ranges(surahs, from_surah, to_surah, from_ayah_a, to_ayah);
    lemma_segment_ranges(surahs, from_surah, to_surah, from_ayah_b, to_ayah);
}

/// Law: the surah bounds of a request may be given in either order.
pub proof fn lemma_segments_order_insensitive(
    surahs: Seq<Surah>,
    from_surah: u16,
    to_surah: u16,
    from_ayah: u16,
    to_ayah: u16,
)
    ensures
        playback_segments_spec(surahs, from_surah, to_surah, from_ayah, to_ayah)
            == playback_segments_spec(surahs, to_surah, from_surah, from_ayah, to_ayah),
{
}

/// The surahs numbered within the span `from_surah..=to_surah` (either order),
/// stably sorted by number.
fn select_surahs(surahs: &[Surah], from_surah: u16, to_surah: u16) -> (r: Vec<Surah>)
    ensures
        r@ == selection(surahs@, from_surah, to_surah),
        sorted_by_number(r@),
{
    let lower_surah = if from_surah <= to_surah { from_surah } else { to_surah };
    let upper_surah = if from_surah <= to_surah { to_surah } else { from_surah };

    // Select the surahs in the span, keeping them stably sorted by number.
    let mut selected: Vec<Surah> = Vec::new();
    let mut i: usize = 0;
    while i < surahs.len()
        invariant
            i <= surahs@.len(),
            selected@ == sort_by_number(span_filter(surahs@.take(i as int), lower_surah, upper_surah)),
        decreases surahs@.len() - i,
    {
        proof {
            lemma_filter_step(surahs@, i as int, lower_surah, upper_surah);
            assert(surahs@.take(i + 1).drop_last() =~= surahs@.take(i as int));
        }
        let s = &surahs[i];
        if lower_surah <= s.number && s.number <= upper_surah {
            let mut pos = selected.len();
            while pos > 0 && selected[pos - 1].number > s.number
                invariant
                    pos <= selected@.len(),
                    forall|j: int| pos <= j < selected@.len() ==> selected@[j].number > s.number,
                decreases pos,
            {
                pos -= 1;
            }
            let ghost prev = selected@;
            proof {
                lemma_insert_at(prev, *s, pos as int);
                let f = span_filter(surahs@.take(i as int + 1), lower_surah, upper_surah);
                assert(f.drop_last() == span_filter(surahs@.take(i as int), lower_surah, upper_surah));
                assert(f.last() == surahs@[i as int]);
            }
            selected.insert(pos, s.clone());
            proof {
                assert(selected@ =~= prev.take(pos as int).push(*s) + prev.skip(pos as int));
            }
        }
        i += 1;
    }
    proof {
        assert(surahs@.take(surahs@.len() as int) =~= surahs@);
    }
    proof {
        lemma_sort_by_number(span_filter(surahs@, lower_surah, upper_surah));
    }
    selected
}

/// Whether the request can be segmented: the first and last selected surahs
/// have at least one ayah.
pub fn is_segmentable(surahs: &[Surah], from_surah: u16, to_surah: u16) -> (r: bool)
    ensures
        r == segmentable(surahs@, from_surah, to_surah),
{
    let selected = select_surahs(surahs, from_surah, to_surah);
    let ghost sel = selected@;
    if selected.len() == 0 {
        assert(segmentable(surahs@, from_surah, to_surah));
        return true;
    }
    let first_number = selected[0].number;
    let last_number = selected[selected.len() - 1].number;
    let mut i: usize = 0;
    while i < selected.len()
        invariant
            sel == selected@,
            sel == selection(surahs@, from_surah, to_surah),
            sel.len() > 0,
            first_number == sel[0].number,
            last_number == sel.last().number,
            i <= sel.len(),
            forall|j: int|
                0 <= j < i && (sel[j].number == sel[0].number || sel[j].number == sel.last().number)
                    ==> #[trigger] sel[j].ayah_count >= 1,
        decreases sel.len() - i,
    {
        let s = &selected[i];
        if (s.number == first_number || s.number == last_number) && s.ayah_count == 0 {
            assert(!(sel[i as int].ayah_count >= 1));
            assert(!segmentable(surahs@, from_surah, to_surah));
            return false;
        }
        i += 1;
    }
    assert(segmentable(surahs@, from_surah, to_surah));
    true
}

/// Break a (possibly multi-surah) request into per-surah playback segments.
///
/// `from_surah`/`to_surah` may be given in either order — they are normalized.
/// Ayah bounds are clamped to each surah's `ayah_count`; the first selected
/// surah starts at `from_ayah`, the last ends at `to_ayah`, and every surah in
/// between plays in full.
pub fn playback_segments(
    surahs: &[Surah],
    from_surah: u16,
    to_surah: u16,
    from_ayah: u16,
    to_ayah: u16,
) -> (r: Vec<PlaybackSegment>)
    requires
        segmentable(surahs@, from_surah, to_surah),
    ensures
        matches_spec(r@, playback_segments_spec(surahs@, from_surah, to_surah, from_ayah, to_ayah)),
{
    let selected = select_surahs(surahs, from_surah, to_surah);
    let ghost sel = selected@;

    let mut segments: Vec<PlaybackSegment> = Vec::new();
    if selected.len() == 0 {
        return segments;
    }
    let first_number = selected[0].number;
    let last_number = selected[selected.len() - 1].number;

    let mut k: usize = 0;
    while k < selected.len()
        invariant
            sel == selected@,
            sel.len() > 0,
            first_number == sel[0].number,
            last_number == sel.last().number,
            segmentable(surahs@, from_surah, to_surah),
            sorted_by_number(sel),
            sel == selection(surahs@, from_surah, to_surah),
            k <= sel.len(),
            matches_spec(
                segments@,
                segments_of(sel.take(k as int), first_number, last_number, from_ayah, to_ayah),
            ),
        decreases sel.len() - k,
    {
        let surah = &selected[k];
        let count = surah.ayah_count;
        proof {
            assert(sel.take(k + 1).drop_last() =~= sel.take(k as int));
            assert(sel.take(k + 1).last() == sel[k as int]);
        }
        let (start, end) = if first_number == last_number {
            assert(sel[0].number <= sel[k as int].number <= sel[sel.len() - 1].number);
            assert(sel[k as int].ayah_count >= 1);
            let lower = clamp_u16(from_ayah, 1, count);
            let upper = clamp_u16(to_ayah, lower, count);
            (lower, upper)
        } else if surah.number == first_number {
            assert(sel[k as int].ayah_count >= 1);
            (clamp_u16(from_ayah, 1, count), count)
        } else if surah.number == last_number {
            assert(sel[k as int].ayah_count >= 1);
            (1u16, clamp_u16(to_ayah, 1, count))
        } else {
            (1u16, count)
        };
        if start <= end {
            segments.push(PlaybackSegment { surah: surah.clone(), range: start..=end });
        }
        k += 1;
    }
    proof {
        assert(sel.take(sel.len() as int) =~= sel);
    }
    segments
}

} // verus!
