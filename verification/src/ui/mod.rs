//! Text the terminal UI renders: the transport hint line, time and width
//! formatting, and the Now Playing labels.

pub mod browse;
pub mod now_playing;
pub mod playlists;
pub mod widgets;

use vstd::prelude::*;

use crate::app::{Tab, ToastKind};
use crate::model::output::OutputStatus;
use crate::text::{decimal, push_decimal};
use crate::ui::widgets::{engine_state_chip, Tone};

verus! {

/// The key-binding hint shown in the transport bar for the active tab.
pub fn transport_hint(tab: Tab) -> (r: &'static str)
    ensures
        r@ == match tab {
            Tab::Browse => " Tab field   \u{2190}/\u{2192} reciter   / search   Enter play   1 Now Playing   ? help   q quit"@,
            Tab::Outputs => " Tab switch list   \u{2191}/\u{2193} select   + add   Enter bind   d delete   r refresh   q quit"@,
            Tab::Playlists => " \u{2191}/\u{2193} select   Enter load   s save   d delete   r rename   1 Now Playing   q quit"@,
            Tab::NowPlaying => " Space play/pause   s stop   n/p track   l loop   +/- vol   Tab tabs   ? help   q quit"@,
        },
{
    match tab {
        Tab::Browse => " Tab field   \u{2190}/\u{2192} reciter   / search   Enter play   1 Now Playing   ? help   q quit",
        Tab::Outputs => " Tab switch list   \u{2191}/\u{2193} select   + add   Enter bind   d delete   r refresh   q quit",
        Tab::Playlists => " \u{2191}/\u{2193} select   Enter load   s save   d delete   r rename   1 Now Playing   q quit",
        Tab::NowPlaying => " Space play/pause   s stop   n/p track   l loop   +/- vol   Tab tabs   ? help   q quit",
    }
}

/// Narrowest terminal the UI lays out in.
pub const MIN_WIDTH: u16 = 80;

/// Shortest terminal the UI lays out in.
pub const MIN_HEIGHT: u16 = 24;

/// Whether a `width` x `height` terminal is large enough for the layout.
pub fn fits_terminal(width: u16, height: u16) -> (r: bool)
    ensures
        r == (width >= MIN_WIDTH && height >= MIN_HEIGHT),
{
    width >= MIN_WIDTH && height >= MIN_HEIGHT
}

/// The message shown instead of the UI on a terminal that is too small.
pub fn too_small_text() -> (r: String)
    ensures
        r@ == "Terminal too small (need "@ + decimal(MIN_WIDTH as nat) + "x"@ + decimal(MIN_HEIGHT as nat) + ")"@,
{
    let mut t = String::from_str("Terminal too small (need ");
    push_decimal(&mut t, MIN_WIDTH as u64);
    t.append("x");
    push_decimal(&mut t, MIN_HEIGHT as u64);
    t.append(")");
    t
}

/// The header's output summary: `"♪ <n> output(s) · <p> playing "`.
pub fn header_chip(outputs: usize, playing: usize) -> (r: String)
    ensures
        r@ == "\u{266a} "@ + decimal(outputs as nat) + " output(s) \u{b7} "@ + decimal(playing as nat) + " playing "@,
{
    let mut t = String::from_str("\u{266a} ");
    push_decimal(&mut t, outputs as u64);
    t.append(" output(s) \u{b7} ");
    push_decimal(&mut t, playing as u64);
    t.append(" playing ");
    t
}

/// The tab strip entry for `tab`: `" <position+1> <title> "`.
pub fn tab_label(tab: Tab) -> (r: String)
    ensures
        r@ == " "@ + decimal(crate::app::tab_index(tab) as nat + 1) + " "@ + match tab {
            Tab::NowPlaying => "Now Playing"@,
            Tab::Browse => "Browse"@,
            Tab::Outputs => "Outputs"@,
            Tab::Playlists => "Playlists"@,
        } + " "@,
{
    let mut t = String::from_str(" ");
    push_decimal(&mut t, (tab.index() + 1) as u64);
    t.append(" ");
    t.append(tab.title());
    t.append(" ");
    t
}

/// The palette role a toast of `kind` is drawn in.
pub fn toast_tone(kind: ToastKind) -> (r: Tone)
    ensures
        r == match kind {
            ToastKind::Info => Tone::Accent,
            ToastKind::Warn => Tone::Warning,
            ToastKind::Error => Tone::Error,
        },
{
    match kind {
        ToastKind::Info => Tone::Accent,
        ToastKind::Warn => Tone::Warning,
        ToastKind::Error => Tone::Error,
    }
}

/// The transport bar's status while a download runs: the latest file's label
/// and the count so far.
pub fn download_status(status: &OutputStatus) -> (r: Option<(String, String)>)
    ensures
        match status.download {
            Some(p) => r matches Some((label, count)) && label@ == p.label@ && count@ == "  ("@ + decimal(
                p.done as nat,
            ) + "/"@ + decimal(p.total as nat) + ")"@,
            None => r is None,
        },
{
    match &status.download {
        Some(p) => {
            let mut count = String::from_str("  (");
            push_decimal(&mut count, p.done as u64);
            count.append("/");
            push_decimal(&mut count, p.total as u64);
            count.append(")");
            Some((p.label.clone(), count))
        },
        None => None,
    }
}

/// The transport bar's engine part: `" <icon>  <state>"` and its tone, then,
/// when tracks are loaded, `"   <current track>  (<i+1>/<n>)"`.
pub fn engine_status(status: &OutputStatus) -> (r: (String, Tone, Option<String>))
    requires
        status.track_index < usize::MAX,
    ensures
        ({
            let (icon, label, tone) = crate::ui::widgets::engine_state_chip_spec(status.state);
            &&& r.0@ == " "@ + icon + "  "@ + label
            &&& r.1 == tone
            &&& if status.track_total > 0 {
                r.2 matches Some(t) && t@ == "   "@ + crate::ui::now_playing::label_or_dash(*status) + "  ("@
                    + decimal(status.track_index as nat + 1) + "/"@ + decimal(status.track_total as nat) + ")"@
            } else {
                r.2 is None
            }
        }),
{
    let (icon, label, tone) = engine_state_chip(&status.state);
    let mut head = String::from_str(" ");
    head.append(icon);
    head.append("  ");
    head.append(label.as_str());
    let tracks = if status.track_total > 0 {
        let mut t = String::from_str("   ");
        match status.current_track_label() {
            Some(l) => t.append(l),
            None => t.append("\u{2014}"),
        }
        t.append("  (");
        push_decimal(&mut t, (status.track_index + 1) as u64);
        t.append("/");
        push_decimal(&mut t, status.track_total as u64);
        t.append(")");
        Some(t)
    } else {
        None
    };
    (head, tone, tracks)
}

} // verus!
