//! Shared UI formatting helpers.

use vstd::prelude::*;

use crate::audio::engine::EngineState;
use crate::text::{decimal, push_decimal, str_chars};

verus! {

/// `s` left-padded with `'0'` to at least two characters (`{:02}`).
pub open spec fn pad2(s: Seq<char>) -> Seq<char> {
    if s.len() >= 2 {
        s
    } else {
        Seq::new((2 - s.len()) as nat, |i: int| '0') + s
    }
}

/// `MM:SS` for a number of whole seconds (minutes are not wrapped at 60).
pub open spec fn mmss(secs: nat) -> Seq<char> {
    pad2(decimal(secs / 60)) + seq![':'] + pad2(decimal(secs % 60))
}

fn push_two_digit(s: &mut String, n: u64)
    ensures
        final(s)@ == old(s)@ + pad2(decimal(n as nat)),
{
    let ghost start = s@;
    if n < 10 {
        s.push('0');
    }
    let ghost mid = s@;
    push_decimal(s, n);
    proof {
        if n < 10 {
            assert(decimal(n as nat) == seq![crate::text::digit_char(n as nat)]);
            assert(mid =~= start + Seq::new(1, |i: int| '0'));
        } else {
            assert(decimal(n as nat) == decimal(n as nat / 10).push(
                crate::text::digit_char(n as nat % 10),
            ));
            assert(decimal(n as nat).len() >= 2);
            assert(mid =~= start);
        }
        assert(s@ =~= start + pad2(decimal(n as nat)));
    }
}

/// Format a duration given in whole seconds as `MM:SS`.
pub fn fmt_mmss(secs: u64) -> (r: String)
    ensures
        r@ == mmss(secs as nat),
{
    let mut s = String::new();
    push_two_digit(&mut s, secs / 60);
    s.push(':');
    push_two_digit(&mut s, secs % 60);
    assert(s@ =~= mmss(secs as nat));
    s
}

/// `text` cut to `max` characters, the last one replaced by an ellipsis when
/// shortened.
pub open spec fn truncate_spec(text: Seq<char>, max: nat) -> Seq<char> {
    if text.len() <= max {
        text
    } else {
        text.take(if max >= 1 { max - 1 } else { 0 }) + seq!['\u{2026}']
    }
}

/// Law: a truncated text is never longer than `max` characters (for
/// `max >= 1`), and an untruncated one is the text itself.
pub proof fn lemma_truncate_fits(text: Seq<char>, max: nat)
    ensures
        max >= 1 ==> truncate_spec(text, max).len() <= max,
        text.len() <= max ==> truncate_spec(text, max) == text,
{
}

/// Truncate `text` to `max` characters, appending an ellipsis if shortened.
pub fn truncate(text: &str, max: usize) -> (r: String)
    ensures
        r@ == truncate_spec(text@, max as nat),
{
    let chars = str_chars(text);
    if chars.len() <= max {
        return String::from_str(text);
    }
    let keep: usize = if max >= 1 {
        max - 1
    } else {
        0
    };
    let mut s = String::new();
    let mut i: usize = 0;
    while i < keep
        invariant
            i <= keep < chars@.len(),
            chars@ == text@,
            s@ == text@.take(i as int),
        decreases keep - i,
    {
        s.push(chars[i]);
        assert(text@.take(i + 1) =~= text@.take(i as int).push(text@[i as int]));
        i += 1;
    }
    s.push('\u{2026}');
    s
}

/// The palette role a piece of text is drawn in.
#[derive(Debug, Clone, Copy, PartialEq, Eq)]
pub enum Tone {
    /// Active tab, focus borders.
    Accent,
    /// "playing" / "local available".
    Good,
    /// "downloading" / "to download" / warnings.
    Warning,
    /// Errors.
    Error,
    /// Secondary text.
    Dim,
}

/// Icon, label and tone for an engine state.
pub open spec fn engine_state_chip_spec(state: EngineState) -> (Seq<char>, Seq<char>, Tone) {
    match state {
        EngineState::Idle => ("\u{25cb}"@, "Idle"@, Tone::Dim),
        EngineState::Loading => ("\u{2026}"@, "Loading"@, Tone::Warning),
        EngineState::Playing => ("\u{25b6}"@, "Playing"@, Tone::Good),
        EngineState::Paused => ("\u{275a}\u{275a}"@, "Paused"@, Tone::Warning),
        EngineState::Error(err) => ("\u{2716}"@, "Error: "@ + err@, Tone::Error),
    }
}

/// Icon, label and tone for an engine state.
pub fn engine_state_chip(state: &EngineState) -> (r: (&'static str, String, Tone))
    ensures
        r.0@ == engine_state_chip_spec(*state).0,
        r.1@ == engine_state_chip_spec(*state).1,
        r.2 == engine_state_chip_spec(*state).2,
{
    match state {
        EngineState::Idle => ("\u{25cb}", String::from_str("Idle"), Tone::Dim),
        EngineState::Loading => ("\u{2026}", String::from_str("Loading"), Tone::Warning),
        EngineState::Playing => ("\u{25b6}", String::from_str("Playing"), Tone::Good),
        EngineState::Paused => ("\u{275a}\u{275a}", String::from_str("Paused"), Tone::Warning),
        EngineState::Error(err) => {
            let mut label = String::from_str("Error: ");
            label.append(err.as_str());
            ("\u{2716}", label, Tone::Error)
        },
    }
}

/// `n` spaces.
pub open spec fn spaces(n: nat) -> Seq<char> {
    Seq::new(n, |i: int| ' ')
}

/// `s` padded with spaces on the right to at least `w` characters (`{:<w}`).
pub open spec fn pad_right_spec(s: Seq<char>, w: nat) -> Seq<char> {
    if s.len() >= w {
        s
    } else {
        s + spaces((w - s.len()) as nat)
    }
}

/// `s` padded with spaces on the left to at least `w` characters (`{:>w}`).
pub open spec fn pad_left_spec(s: Seq<char>, w: nat) -> Seq<char> {
    if s.len() >= w {
        s
    } else {
        spaces((w - s.len()) as nat) + s
    }
}

/// Append `n` spaces to `out`.
fn push_spaces(out: &mut String, n: usize)
    ensures
        final(out)@ == old(out)@ + spaces(n as nat),
{
    let mut i: usize = 0;
    while i < n
        invariant
            i <= n,
            out@ == old(out)@ + spaces(i as nat),
        decreases n - i,
    {
        out.push(' ');
        assert(old(out)@ + spaces((i + 1) as nat) =~= (old(out)@ + spaces(i as nat)).push(' '));
        i += 1;
    }
}

/// Append `s` to `out`, padded on the right to `w` characters.
pub fn push_padded_right(out: &mut String, s: &str, w: usize)
    ensures
        final(out)@ == old(out)@ + pad_right_spec(s@, w as nat),
{
    let n = s.unicode_len();
    out.append(s);
    if n < w {
        push_spaces(out, w - n);
    }
}

/// Append `s` to `out`, padded on the left to `w` characters.
pub fn push_padded_left(out: &mut String, s: &str, w: usize)
    ensures
        final(out)@ == old(out)@ + pad_left_spec(s@, w as nat),
{
    let n = s.unicode_len();
    let ghost start = out@;
    if n < w {
        push_spaces(out, w - n);
    }
    out.append(s);
    proof {
        if n < w {
            assert(out@ =~= start + (spaces((w - n) as nat) + s@));
        }
    }
}

} // verus!
