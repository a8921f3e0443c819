//! Surah-name slugging for the whole-surah audio file names.

use unicode_normalization::UnicodeNormalization;
use vstd::prelude::*;

use crate::text::{ascii_lower, is_ascii_seq};

verus! {

/// The canonical decomposition (NFD) of a character sequence, as
/// `unicode_normalization` computes it.
pub uninterp spec fn nfd_of(s: Seq<char>) -> Seq<char>;

/// The lowercase mapping of one character, as `char::to_lowercase` yields it.
pub uninterp spec fn lowercase_of(c: char) -> Seq<char>;

/// Calls `UnicodeNormalization::nfd` on `s` and collects the decomposed
/// characters. The result is named [`nfd_of`]; of the Unicode decomposition
/// tables only this is stated: no ASCII character decomposes, so an ASCII
/// string comes back unchanged.
#[verifier::external_body]
fn nfd_chars(s: &str) -> (r: Vec<char>)
    ensures
        r@ == nfd_of(s@),
        is_ascii_seq(s@) ==> r@ == s@,
{
    s.nfd().collect()
}

/// Calls `char::to_lowercase` and collects the (one or more) characters it
/// yields. The result is named [`lowercase_of`]; of the Unicode case tables
/// only the ASCII part is stated: an ASCII character lowercases to the one
/// character [`ascii_lower`] gives.
#[verifier::external_body]
fn lowercase_chars(c: char) -> (r: Vec<char>)
    ensures
        r@ == lowercase_of(c),
        (c as u32) < 128 ==> r@ == seq![ascii_lower(c)],
{
    c.to_lowercase().collect()
}

/// Every character of `s`, lowercased, in order.
pub open spec fn lowercase_all(s: Seq<char>) -> Seq<char>
    decreases s.len(),
{
    if s.len() == 0 {
        Seq::empty()
    } else {
        lowercase_all(s.drop_last()) + lowercase_of(s.last())
    }
}

/// True for the Unicode combining-mark blocks that NFD produces for
/// Latin-script diacritics.
pub open spec fn is_combining_mark_spec(c: char) -> bool {
    let u = c as u32;
    ||| 0x0300 <= u <= 0x036F
    ||| 0x1AB0 <= u <= 0x1AFF
    ||| 0x1DC0 <= u <= 0x1DFF
    ||| 0x20D0 <= u <= 0x20FF
    ||| 0xFE20 <= u <= 0xFE2F
}

/// A character kept verbatim in a slug.
pub open spec fn is_slug_alnum(c: char) -> bool {
    ('a' <= c && c <= 'z') || ('0' <= c && c <= '9')
}

/// One step of the slug builder over `(output, previous_was_dash)`.
pub open spec fn slug_step(acc: (Seq<char>, bool), c: char) -> (Seq<char>, bool) {
    if is_combining_mark_spec(c) {
        acc
    } else if is_slug_alnum(c) {
        (acc.0.push(c), false)
    } else if (c == '-' || c == ' ') && !acc.1 {
        (acc.0.push('-'), true)
    } else {
        acc
    }
}

/// The slug builder run over all of `s`.
pub open spec fn slug_build(s: Seq<char>) -> (Seq<char>, bool)
    decreases s.len(),
{
    if s.len() == 0 {
        (Seq::empty(), false)
    } else {
        slug_step(slug_build(s.drop_last()), s.last())
    }
}

/// `s` without its leading `'-'` characters.
pub open spec fn trim_start_dashes(s: Seq<char>) -> Seq<char>
    decreases s.len(),
{
    if s.len() > 0 && s[0] == '-' {
        trim_start_dashes(s.drop_first())
    } else {
        s
    }
}

/// `s` without its trailing `'-'` characters.
pub open spec fn trim_end_dashes(s: Seq<char>) -> Seq<char>
    decreases s.len(),
{
    if s.len() > 0 && s.last() == '-' {
        trim_end_dashes(s.drop_last())
    } else {
        s
    }
}

/// The slug of an already decomposed, lowercased character sequence.
pub open spec fn slug_of(chars: Seq<char>) -> Seq<char> {
    trim_end_dashes(trim_start_dashes(slug_build(chars).0))
}

/// The slug of a transliterated surah name.
pub open spec fn surah_slug_spec(name: Seq<char>) -> Seq<char> {
    slug_of(lowercase_all(nfd_of(name)))
}

/// A well-formed slug: only `a-z`, `0-9` and single `-` separators, never at
/// either end.
pub open spec fn is_slug(s: Seq<char>) -> bool {
    &&& forall|i: int| 0 <= i < s.len() ==> is_slug_alnum(#[trigger] s[i]) || s[i] == '-'
    &&& forall|i: int| 0 <= i < s.len() - 1 ==> !(#[trigger] s[i] == '-' && s[i + 1] == '-')
    &&& s.len() > 0 ==> s[0] != '-' && s.last() != '-'
}

/// Chars in `a-z`, `0-9` or `-`, with no two `-` in a row.
pub open spec fn dash_collapsed(s: Seq<char>) -> bool {
    &&& forall|i: int| 0 <= i < s.len() ==> is_slug_alnum(#[trigger] s[i]) || s[i] == '-'
    &&& forall|i: int| 0 <= i < s.len() - 1 ==> !(#[trigger] s[i] == '-' && s[i + 1] == '-')
}

proof fn lemma_build_collapsed(s: Seq<char>)
    ensures
        dash_collapsed(slug_build(s).0),
        slug_build(s).1 <==> (slug_build(s).0.len() > 0 && slug_build(s).0.last() == '-'),
    decreases s.len(),
{
    if s.len() > 0 {
        lemma_build_collapsed(s.drop_last());
        let prev = slug_build(s.drop_last());
        let out = slug_build(s).0;
        if out.len() > prev.0.len() {
            assert(out =~= prev.0.push(out.last()));
            assert forall|i: int| 0 <= i < out.len() - 1 implies !(#[trigger] out[i] == '-' && out[i
                + 1] == '-') by {
                if i < out.len() - 2 {
                    assert(out[i] == prev.0[i] && out[i + 1] == prev.0[i + 1]);
                }
            }
        }
    }
}

proof fn lemma_trim_start(s: Seq<char>)
    requires
        dash_collapsed(s),
    ensures
        dash_collapsed(trim_start_dashes(s)),
        trim_start_dashes(s).len() > 0 ==> trim_start_dashes(s)[0] != '-',
        exists|k: int| 0 <= k <= s.len() && trim_start_dashes(s) == s.skip(k),
    decreases s.len(),
{
    if s.len() > 0 && s[0] == '-' {
        let d = s.drop_first();
        assert forall|i: int| 0 <= i < d.len() - 1 implies !(#[trigger] d[i] == '-' && d[i + 1]
            == '-') by {
            assert(d[i] == s[i + 1] && d[i + 1] == s[i + 2]);
        }
        lemma_trim_start(d);
        let k = choose|k: int| 0 <= k <= d.len() && trim_start_dashes(d) == d.skip(k);
        assert(d.skip(k) =~= s.skip(k + 1));
    } else {
        assert(s.skip(0) =~= s);
    }
}

proof fn lemma_trim_end(s: Seq<char>)
    requires
        dash_collapsed(s),
        s.len() > 0 ==> s[0] != '-',
    ensures
        is_slug(trim_end_dashes(s)),
    decreases s.len(),
{
    if s.len() > 0 && s.last() == '-' {
        let d = s.drop_last();
        lemma_trim_end(d);
    }
}

/// Law: every slug is well formed — only `a-z`, `0-9` and single `-`
/// separators, with no `-` at either end.
pub proof fn lemma_slug_well_formed(chars: Seq<char>)
    ensures
        is_slug(slug_of(chars)),
{
    lemma_build_collapsed(chars);
    let built = slug_build(chars).0;
    lemma_trim_start(built);
    lemma_trim_end(trim_start_dashes(built));
}

proof fn lemma_build_identity(s: Seq<char>)
    requires
        dash_collapsed(s),
    ensures
        slug_build(s) == (s, s.len() > 0 && s.last() == '-'),
    decreases s.len(),
{
    if s.len() > 0 {
        let d = s.drop_last();
        assert forall|i: int| 0 <= i < d.len() - 1 implies !(#[trigger] d[i] == '-' && d[i + 1]
            == '-') by {
            assert(d[i] == s[i] && d[i + 1] == s[i + 1]);
        }
        lemma_build_identity(d);
        if s.len() >= 2 {
            assert(!(s[s.len() - 2] == '-' && s[s.len() - 1] == '-'));
        }
        assert(d.push(s.last()) =~= s);
    }
}

/// A well-formed slug is its own slug.
proof fn lemma_slug_fixed(s: Seq<char>)
    requires
        is_slug(s),
    ensures
        slug_of(s) == s,
{
    lemma_build_identity(s);
    assert(trim_start_dashes(s) == s);
    assert(trim_end_dashes(s) == s);
}

/// Law: slugging a slug changes nothing.
pub proof fn lemma_slug_idempotent(chars: Seq<char>)
    ensures
        slug_of(slug_of(chars)) == slug_of(chars),
{
    lemma_slug_well_formed(chars);
    let s = slug_of(chars);
    lemma_build_identity(s);
}

/// True for Unicode combining marks (the ranges that matter for Latin-script
/// diacritics produced by NFD decomposition).
pub fn is_combining_mark(ch: char) -> (r: bool)
    ensures
        r == is_combining_mark_spec(ch),
{
    let u = ch as u32;
    (0x0300 <= u && u <= 0x036F) || (0x1AB0 <= u && u <= 0x1AFF) || (0x1DC0 <= u && u <= 0x1DFF)
        || (0x20D0 <= u && u <= 0x20FF) || (0xFE20 <= u && u <= 0xFE2F)
}

/// The slug of a decomposed, lowercased character sequence: keep `a-z`/`0-9`,
/// collapse runs of `-`/space to a single `-`, drop combining marks,
/// apostrophes, quotes and anything else, then trim `-` from both ends.
pub fn slug_from_folded(chars: &[char]) -> (r: String)
    ensures
        r@ == slug_of(chars@),
{
    let mut out: Vec<char> = Vec::new();
    let mut previous_was_dash = false;
    let mut i: usize = 0;
    while i < chars.len()
        invariant
            i <= chars@.len(),
            (out@, previous_was_dash) == slug_build(chars@.take(i as int)),
        decreases chars@.len() - i,
    {
        proof {
            assert(chars@.take(i + 1).drop_last() =~= chars@.take(i as int));
        }
        let ch = chars[i];
        if is_combining_mark(ch) {
        } else if ('a' <= ch && ch <= 'z') || ('0' <= ch && ch <= '9') {
            out.push(ch);
            previous_was_dash = false;
        } else if (ch == '-' || ch == ' ') && !previous_was_dash {
            out.push('-');
            previous_was_dash = true;
        }
        i += 1;
    }
    proof {
        assert(chars@.take(chars@.len() as int) =~= chars@);
    }
    let n = out.len();
    let mut a: usize = 0;
    assert(out@.skip(0) =~= out@);
    while a < n && out[a] == '-'
        invariant
            a <= n == out@.len(),
            trim_start_dashes(out@) == trim_start_dashes(out@.skip(a as int)),
        decreases n - a,
    {
        proof {
            assert(out@.skip(a as int).drop_first() =~= out@.skip(a + 1));
        }
        a += 1;
    }
    assert(trim_start_dashes(out@) == out@.skip(a as int));
    let mut b: usize = n;
    while b > a && out[b - 1] == '-'
        invariant
            a <= b <= n == out@.len(),
            trim_end_dashes(out@.skip(a as int)) == trim_end_dashes(out@.subrange(a as int, b as int)),
        decreases b,
    {
        proof {
            assert(out@.subrange(a as int, b as int).drop_last() =~= out@.subrange(
                a as int,
                b - 1,
            ));
        }
        b -= 1;
    }
    proof {
        assert(out@.skip(a as int) =~= out@.subrange(a as int, n as int));
    }
    let mut result = String::new();
    let mut k = a;
    while k < b
        invariant
            a <= k <= b <= n == out@.len(),
            result@ == out@.subrange(a as int, k as int),
        decreases b - k,
    {
        result.push(out[k]);
        proof {
            assert(out@.subrange(a as int, k + 1) =~= out@.subrange(a as int, k as int).push(
                out@[k as int],
            ));
        }
        k += 1;
    }
    result
}

/// Build the filesystem slug for a transliterated surah name.
///
/// Diacritic-fold (NFD, then drop combining marks), lowercase, then per
/// character keep `a-z`/`0-9`, collapse runs of `-`/space to a single `-`, and
/// drop apostrophes/quotes (and anything else) entirely; trim leading and
/// trailing `-`. `"Al-Mu'minun"` slugs to `"al-muminun"`.
pub fn surah_slug(name: &str) -> (r: String)
    ensures
        r@ == surah_slug_spec(name@),
        is_slug(r@),
        is_ascii_seq(name@) ==> r@ == slug_of(name@.map_values(|c: char| ascii_lower(c))),
        is_slug(name@) ==> r@ == name@,
{
    let decomposed = nfd_chars(name);
    let mut folded: Vec<char> = Vec::new();
    let mut i: usize = 0;
    while i < decomposed.len()
        invariant
            i <= decomposed@.len(),
            decomposed@ == nfd_of(name@),
            is_ascii_seq(name@) ==> decomposed@ == name@,
            folded@ == lowercase_all(decomposed@.take(i as int)),
            is_ascii_seq(name@) ==> folded@ == decomposed@.take(i as int).map_values(
                |c: char| ascii_lower(c),
            ),
        decreases decomposed@.len() - i,
    {
        let ghost folded_before = folded@;
        let lower = lowercase_chars(decomposed[i]);
        let mut j: usize = 0;
        let ghost before = folded@;
        while j < lower.len()
            invariant
                j <= lower@.len(),
                folded@ == before + lower@.take(j as int),
            decreases lower@.len() - j,
        {
            folded.push(lower[j]);
            proof {
                assert(lower@.take(j + 1) =~= lower@.take(j as int).push(lower@[j as int]));
                assert(before + lower@.take(j + 1) =~= (before + lower@.take(j as int)).push(
                    lower@[j as int],
                ));
            }
            j += 1;
        }
        proof {
            assert(lower@.take(lower@.len() as int) =~= lower@);
            assert(decomposed@.take(i + 1).drop_last() =~= decomposed@.take(i as int));
            if is_ascii_seq(name@) {
                assert((decomposed@[i as int] as u32) < 128);
                assert(decomposed@.take(i + 1).map_values(|c: char| ascii_lower(c)) =~= decomposed@.take(
                    i as int,
                ).map_values(|c: char| ascii_lower(c)).push(ascii_lower(decomposed@[i as int])));
                assert(folded@ =~= folded_before + seq![ascii_lower(decomposed@[i as int])]);
            }
        }
        i += 1;
    }
    proof {
        assert(decomposed@.take(decomposed@.len() as int) =~= decomposed@);
    }
    let r = slug_from_folded(folded.as_slice());
    proof {
        lemma_slug_well_formed(folded@);
        if is_slug(name@) {
            assert(is_ascii_seq(name@)) by {
                assert forall|i: int| 0 <= i < name@.len() implies (#[trigger] name@[i] as u32) < 128 by {
                    assert(is_slug_alnum(name@[i]) || name@[i] == '-');
                }
            }
            assert(name@.map_values(|c: char| ascii_lower(c)) =~= name@) by {
                assert forall|i: int| 0 <= i < name@.len() implies ascii_lower(name@[i]) == name@[i] by {
                    assert(is_slug_alnum(name@[i]) || name@[i] == '-');
                }
            }
            lemma_slug_fixed(name@);
        }
    }
    r
}

} // verus!
