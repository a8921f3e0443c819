//! Now Playing text: verse lines in reading order and the range label.

use vstd::prelude::*;

use crate::app::{parse_track_ref, track_ref_spec, VerseView};
use crate::domain::catalog::{first_surah, Catalog};
use crate::model::output::{DownloadProgress, OutputStatus};
use crate::model::playlist::PlaylistItem;
use crate::text::{decimal, push_decimal, str_chars};

verus! {

/// `s` split at every `' '` (consecutive spaces give empty words), as
/// `str::split(' ')` yields it.
pub open spec fn split_spaces(s: Seq<char>) -> Seq<Seq<char>>
    decreases s.len(),
{
    if s.len() == 0 {
        seq![Seq::empty()]
    } else {
        let w = split_spaces(s.drop_last());
        if s.last() == ' ' {
            w.push(Seq::empty())
        } else {
            w.update(w.len() - 1, w.last().push(s.last()))
        }
    }
}

/// `words` joined with single spaces.
pub open spec fn join_spaces(words: Seq<Seq<char>>) -> Seq<char>
    decreases words.len(),
{
    if words.len() == 0 {
        Seq::empty()
    } else if words.len() == 1 {
        words[0]
    } else {
        join_spaces(words.drop_last()) + seq![' '] + words.last()
    }
}

/// `text` with its space-separated words in reverse order.
pub open spec fn reverse_rtl_spec(text: Seq<char>) -> Seq<char> {
    join_spaces(split_spaces(text).reverse())
}

/// No word of `words` contains a space.
pub open spec fn spaceless(words: Seq<Seq<char>>) -> bool {
    forall|i: int, j: int| 0 <= i < words.len() && 0 <= j < words[i].len() ==> words[i][j] != ' '
}

proof fn lemma_split_shape(s: Seq<char>)
    ensures
        split_spaces(s).len() >= 1,
        spaceless(split_spaces(s)),
        join_spaces(split_spaces(s)) == s,
    decreases s.len(),
{
    if s.len() > 0 {
        let d = s.drop_last();
        lemma_split_shape(d);
        let w = split_spaces(d);
        let c = s.last();
        if c == ' ' {
            let v = w.push(Seq::<char>::empty());
            assert(v.drop_last() =~= w);
            assert(join_spaces(v) =~= d + seq![' ']);
            assert(s =~= d + seq![' ']);
        } else {
            let n = w.len() - 1;
            let v = w.update(n, w.last().push(c));
            assert forall|i: int, j: int| 0 <= i < v.len() && 0 <= j < v[i].len() implies v[i][j] != ' ' by {
                if i == n && j == v[i].len() - 1 {
                } else if i == n {
                    assert(v[i][j] == w[n][j]);
                }
            }
            if w.len() == 1 {
                assert(join_spaces(v) =~= d.push(c));
            } else {
                assert(v.drop_last() =~= w.drop_last());
                assert(join_spaces(v) =~= join_spaces(w).push(c));
            }
            assert(s =~= d.push(c));
        }
    }
}

proof fn lemma_split_append_word(x: Seq<char>, w: Seq<char>)
    requires
        forall|j: int| 0 <= j < w.len() ==> w[j] != ' ',
    ensures
        split_spaces(x + w) == split_spaces(x).update(
            split_spaces(x).len() - 1,
            split_spaces(x).last() + w,
        ),
    decreases w.len(),
{
    lemma_split_shape(x);
    if w.len() == 0 {
        assert(x + w =~= x);
        assert(split_spaces(x).last() + w =~= split_spaces(x).last());
        assert(split_spaces(x).update(split_spaces(x).len() - 1, split_spaces(x).last())
            =~= split_spaces(x));
    } else {
        let wd = w.drop_last();
        lemma_split_append_word(x, wd);
        assert((x + w).drop_last() =~= x + wd);
        assert((x + w).last() == w.last());
        let sx = split_spaces(x);
        let n = sx.len() - 1;
        assert((sx.last() + wd).push(w.last()) =~= sx.last() + w);
        let v = sx.update(n, sx.last() + wd);
        assert(v.len() - 1 == n);
        assert(v.last() == sx.last() + wd);
        assert(v.update(n, (sx.last() + wd).push(w.last())) =~= sx.update(n, sx.last() + w));
    }
}

proof fn lemma_join_split(ws: Seq<Seq<char>>)
    requires
        ws.len() >= 1,
        spaceless(ws),
    ensures
        split_spaces(join_spaces(ws)) == ws,
    decreases ws.len(),
{
    let last = ws.last();
    assert(forall|j: int| 0 <= j < last.len() ==> last[j] != ' ') by {
        assert forall|j: int| 0 <= j < last.len() implies last[j] != ' ' by {
            assert(ws[ws.len() - 1][j] != ' ');
        }
    }
    if ws.len() == 1 {
        lemma_split_append_word(Seq::empty(), last);
        assert(Seq::<char>::empty() + last =~= last);
        assert(split_spaces(Seq::<char>::empty()) == seq![Seq::<char>::empty()]);
        assert(Seq::<char>::empty() + last =~= last);
        assert(seq![Seq::<char>::empty()].update(0, Seq::<char>::empty() + last) =~= ws);
    } else {
        let d = ws.drop_last();
        assert(spaceless(d)) by {
            assert forall|i: int, j: int| 0 <= i < d.len() && 0 <= j < d[i].len() implies d[i][j]
                != ' ' by {
                assert(d[i] == ws[i]);
            }
        }
        lemma_join_split(d);
        let x = join_spaces(d) + seq![' '];
        lemma_split_append_word(x, last);
        assert(x.drop_last() =~= join_spaces(d));
        assert(x.last() == ' ');
        let sx = split_spaces(x);
        assert(sx == d.push(Seq::<char>::empty()));
        assert(Seq::<char>::empty() + last =~= last);
        assert(sx.update(sx.len() - 1, sx.last() + last) =~= ws);
    }
}

/// Law: reversing the word order twice gives the text back.
pub proof fn lemma_reverse_rtl_involution(text: Seq<char>)
    ensures
        reverse_rtl_spec(reverse_rtl_spec(text)) == text,
{
    let ws = split_spaces(text);
    lemma_split_shape(text);
    let r = ws.reverse();
    assert(spaceless(r)) by {
        assert forall|i: int, j: int| 0 <= i < r.len() && 0 <= j < r[i].len() implies r[i][j] != ' ' by {
            assert(r[i] == ws[ws.len() - 1 - i]);
        }
    }
    lemma_join_split(r);
    assert(r.reverse() =~= ws);
}

/// Reverse the order of space-separated words, leaving the letters of each
/// word untouched — right-to-left text for a terminal that lays it out left to
/// right.
pub fn reverse_rtl(text: &str) -> (r: String)
    ensures
        r@ == reverse_rtl_spec(text@),
{
    let chars = str_chars(text);
    let mut words: Vec<Vec<char>> = Vec::new();
    words.push(Vec::new());
    let mut i: usize = 0;
    while i < chars.len()
        invariant
            i <= chars@.len(),
            chars@ == text@,
            words@.len() >= 1,
            words@.map_values(|w: Vec<char>| w@) == split_spaces(text@.take(i as int)),
        decreases chars@.len() - i,
    {
        let c = chars[i];
        let ghost before = words@.map_values(|w: Vec<char>| w@);
        proof {
            assert(text@.take(i + 1).drop_last() =~= text@.take(i as int));
            assert(text@.take(i + 1).last() == c);
        }
        if c == ' ' {
            words.push(Vec::new());
            assert(words@.map_values(|w: Vec<char>| w@) =~= before.push(Seq::empty()));
        } else {
            let last = words.len() - 1;
            let mut w = words.remove(last);
            w.push(c);
            words.push(w);
            assert(words@.map_values(|w: Vec<char>| w@) =~= before.update(
                before.len() - 1,
                before.last().push(c),
            ));
        }
        i += 1;
    }
    assert(text@.take(chars@.len() as int) =~= text@);
    let ghost ws = split_spaces(text@);
    let mut out = String::new();
    let mut k: usize = words.len();
    while k > 0
        invariant
            0 <= k <= words@.len() == ws.len(),
            ws.len() >= 1,
            words@.map_values(|w: Vec<char>| w@) == ws,
            out@ == join_spaces(ws.reverse().take((ws.len() - k) as int)),
        decreases k,
    {
        k -= 1;
        let ghost prev = out@;
        if k + 1 < words.len() {
            out.push(' ');
        }
        let w = &words[k];
        let mut j: usize = 0;
        let ghost mid = out@;
        while j < w.len()
            invariant
                j <= w@.len(),
                out@ == mid + w@.take(j as int),
            decreases w@.len() - j,
        {
            out.push(w[j]);
            assert(mid + w@.take(j + 1) =~= (mid + w@.take(j as int)).push(w@[j as int]));
            j += 1;
        }
        proof {
            assert(w@.take(w@.len() as int) =~= w@);
            let n = (ws.len() - k) as int;
            let t = ws.reverse().take(n);
            assert(t.last() == ws[k as int]);
            assert(ws[k as int] == w@);
            assert(t.drop_last() =~= ws.reverse().take(n - 1));
            if n == 1 {
                assert(prev == Seq::<char>::empty());
                assert(out@ =~= t[0]);
            } else {
                assert(out@ =~= prev + seq![' '] + w@);
            }
        }
    }
    assert(ws.reverse().take(ws.len() as int) =~= ws.reverse());
    out
}

/// Range label: `ayah 1–110` for one surah, `18:1 – 20:30` for a span.
pub open spec fn range_label_spec(sel: PlaylistItem) -> Seq<char> {
    if sel.from_surah == sel.to_surah {
        "ayah "@ + decimal(sel.from_ayah as nat) + "\u{2013}"@ + decimal(sel.to_ayah as nat)
    } else {
        decimal(sel.from_surah as nat) + ":"@ + decimal(sel.from_ayah as nat) + " \u{2013} "@ + decimal(
            sel.to_surah as nat,
        ) + ":"@ + decimal(sel.to_ayah as nat)
    }
}

/// Range label: `ayah 1–110` for one surah, `18:1 – 20:30` for a span.
pub fn range_label(sel: &PlaylistItem) -> (r: String)
    ensures
        r@ == range_label_spec(*sel),
{
    if sel.from_surah == sel.to_surah {
        let mut s = String::from_str("ayah ");
        push_decimal(&mut s, sel.from_ayah as u64);
        s.append("\u{2013}");
        push_decimal(&mut s, sel.to_ayah as u64);
        s
    } else {
        let mut s = String::new();
        push_decimal(&mut s, sel.from_surah as u64);
        s.append(":");
        push_decimal(&mut s, sel.from_ayah as u64);
        s.append(" \u{2013} ");
        push_decimal(&mut s, sel.to_surah as u64);
        s.append(":");
        push_decimal(&mut s, sel.to_ayah as u64);
        s
    }
}

/// The surah the Now Playing heading follows: that of the current
/// `surah:ayah` track, else the start of the range.
pub open spec fn playing_surah_spec(label: Option<Seq<char>>, from_surah: u16) -> u16 {
    match label {
        Some(l) => match track_ref_spec(l) {
            Some((s, _)) => s,
            None => from_surah,
        },
        None => from_surah,
    }
}

/// The surah the heading follows for the current track label.
pub fn playing_surah(label: Option<&str>, from_surah: u16) -> (r: u16)
    ensures
        r == playing_surah_spec(
            match label {
                Some(l) => Some(l@),
                None => None,
            },
            from_surah,
        ),
{
    match label {
        Some(l) => match parse_track_ref(l) {
            Some((s, _)) => s,
            None => from_surah,
        },
        None => from_surah,
    }
}

/// The heading and sub-heading for surah `number`: its names, then its
/// number, place of revelation and ayah count; just the number when the
/// catalog lacks it.
pub fn surah_heading(catalog: &Catalog, number: u16) -> (r: (String, String))
    ensures
        match first_surah(catalog.surahs@, number) {
            Some(s) => {
                &&& r.0@ == "  \u{266a}  "@ + s.name_transliterated@ + "    "@ + s.name_arabic@
                &&& r.1@ == "     Surah "@ + decimal(s.number as nat) + " \u{b7} "@ + s.revelation_place@ + " \u{b7} "@
                    + decimal(s.ayah_count as nat) + " ayahs"@
            },
            None => r.0@ == "  \u{266a}  Surah "@ + decimal(number as nat) && r.1@ == Seq::<char>::empty(),
        },
{
    match catalog.surah(number) {
        Some(s) => {
            let mut h = String::from_str("  \u{266a}  ");
            h.append(s.name_transliterated.as_str());
            h.append("    ");
            h.append(s.name_arabic.as_str());
            let mut sub = String::from_str("     Surah ");
            push_decimal(&mut sub, s.number as u64);
            sub.append(" \u{b7} ");
            sub.append(s.revelation_place.as_str());
            sub.append(" \u{b7} ");
            push_decimal(&mut sub, s.ayah_count as u64);
            sub.append(" ayahs");
            (h, sub)
        },
        None => {
            let mut h = String::from_str("  \u{266a}  Surah ");
            push_decimal(&mut h, number as u64);
            (h, String::new())
        },
    }
}

/// `"<done> / <total>   ·   <label>"` under the download bar.
pub fn downloading_caption(p: &DownloadProgress) -> (r: String)
    ensures
        r@ == decimal(p.done as nat) + " / "@ + decimal(p.total as nat) + "   \u{b7}   "@ + p.label@,
{
    let mut t = String::new();
    push_decimal(&mut t, p.done as u64);
    t.append(" / ");
    push_decimal(&mut t, p.total as u64);
    t.append("   \u{b7}   ");
    t.append(p.label.as_str());
    t
}

/// `"    track <index+1> of <total>"`.
pub fn track_position(index: usize, total: usize) -> (r: String)
    requires
        index < usize::MAX,
    ensures
        r@ == "    track "@ + decimal(index as nat + 1) + " of "@ + decimal(total as nat),
{
    let mut t = String::from_str("    track ");
    push_decimal(&mut t, (index + 1) as u64);
    t.append(" of ");
    push_decimal(&mut t, total as u64);
    t
}

/// The current track's label, or `"—"`.
pub open spec fn label_or_dash(status: OutputStatus) -> Seq<char> {
    if status.track_index < status.track_labels@.len() {
        status.track_labels@[status.track_index as int]@
    } else {
        "\u{2014}"@
    }
}

/// The detail column of an output's card in multi-output mode: download
/// progress, the current track and position, or that nothing is loaded.
pub fn output_card_detail(status: &OutputStatus) -> (r: String)
    requires
        status.track_index < usize::MAX,
    ensures
        r@ == match status.download {
            Some(p) => "\u{21e3} downloading ("@ + decimal(p.done as nat) + "/"@ + decimal(p.total as nat) + ")"@,
            None => if status.track_total > 0 {
                label_or_dash(*status) + "  ("@ + decimal(status.track_index as nat + 1) + "/"@ + decimal(
                    status.track_total as nat,
                ) + ")"@
            } else {
                "\u{2014} nothing loaded \u{2014}"@
            },
        },
{
    match &status.download {
        Some(p) => {
            let mut t = String::from_str("\u{21e3} downloading (");
            push_decimal(&mut t, p.done as u64);
            t.append("/");
            push_decimal(&mut t, p.total as u64);
            t.append(")");
            t
        },
        None => {
            if status.track_total > 0 {
                let mut t = match status.current_track_label() {
                    Some(l) => String::from_str(l),
                    None => String::from_str("\u{2014}"),
                };
                t.append("  (");
                push_decimal(&mut t, (status.track_index + 1) as u64);
                t.append("/");
                push_decimal(&mut t, status.track_total as u64);
                t.append(")");
                t
            } else {
                String::from_str("\u{2014} nothing loaded \u{2014}")
            }
        },
    }
}

/// The verse panel's lines: the reference, the Arabic text in reading order,
/// the transliteration, a blank line and the translation when the verse is
/// ready; a one-line note while loading or when unavailable; nothing when
/// hidden.
pub fn verse_lines(view: &VerseView) -> (r: Option<Vec<String>>)
    ensures
        match *view {
            VerseView::Ready { surah, ayah, verse } => r matches Some(v) && v@.len() == 5 && v@[0]@
                == "  \u{2500}\u{2500} Q.S. "@ + decimal(surah as nat) + ":"@ + decimal(ayah as nat) + " \u{2500}\u{2500}"@
                && v@[1]@ == "  "@ + reverse_rtl_spec(verse.ar@) && v@[2]@ == "  "@ + verse.latin@ && v@[3]@
                == Seq::<char>::empty() && v@[4]@ == "  "@ + verse.id@,
            VerseView::Loading => r matches Some(v) && v@.len() == 1 && v@[0]@
                == "  \u{27f3}  memuat teks ayat\u{2026}"@,
            VerseView::Unavailable => r matches Some(v) && v@.len() == 1 && v@[0]@
                == "  teks ayat belum tersedia (perlu koneksi internet)"@,
            VerseView::Hidden => r is None,
        },
{
    match view {
        VerseView::Ready { surah, ayah, verse } => {
            let mut head = String::from_str("  \u{2500}\u{2500} Q.S. ");
            push_decimal(&mut head, *surah as u64);
            head.append(":");
            push_decimal(&mut head, *ayah as u64);
            head.append(" \u{2500}\u{2500}");
            let mut ar = String::from_str("  ");
            let rtl = reverse_rtl(verse.ar.as_str());
            ar.append(rtl.as_str());
            let mut latin = String::from_str("  ");
            latin.append(verse.latin.as_str());
            let mut id = String::from_str("  ");
            id.append(verse.id.as_str());
            let mut v: Vec<String> = Vec::new();
            v.push(head);
            v.push(ar);
            v.push(latin);
            v.push(String::new());
            v.push(id);
            Some(v)
        },
        VerseView::Loading => {
            let mut v: Vec<String> = Vec::new();
            v.push(String::from_str("  \u{27f3}  memuat teks ayat\u{2026}"));
            Some(v)
        },
        VerseView::Unavailable => {
            let mut v: Vec<String> = Vec::new();
            v.push(String::from_str("  teks ayat belum tersedia (perlu koneksi internet)"));
            Some(v)
        },
        VerseView::Hidden => None,
    }
}

} // verus!
