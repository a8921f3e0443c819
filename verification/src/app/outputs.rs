//! The Outputs tab and output focus: which output channel and which detected
//! device are selected, what each key asks for, and where focus goes when the
//! lists change.

use vstd::prelude::*;

use crate::app::{step_cursor, OutputsFocus, ToastKind};
use crate::audio::device::AudioDevice;
use crate::model::output::OutputId;
use crate::text::clamp;

verus! {

/// A key as the Outputs tab sees it.
#[derive(Debug, Clone, Copy, PartialEq, Eq)]
pub enum OutputsKey {
    Tab,
    BackTab,
    Up,
    Down,
    Plus,
    Delete,
    Refresh,
    Enter,
    Other,
}

/// What an Outputs-tab key asks the application to do.
#[derive(Debug, Clone, Copy, PartialEq, Eq)]
pub enum OutputsAction {
    /// Not an Outputs key: the global handler gets it.
    Ignored,
    /// Handled here (focus or cursor moved).
    Handled,
    /// Add an output bound to the device under the cursor.
    AddOutput,
    /// Remove the focused output.
    DeleteFocused,
    /// Enumerate the devices again.
    RefreshDevices,
    /// Rebind the focused output to device `index`.
    Bind(usize),
}

/// Where the Outputs tab stands: which list has focus, and the device cursor.
#[derive(Debug, Clone, Copy, PartialEq, Eq)]
pub struct OutputsTab {
    pub focus: OutputsFocus,
    pub device_cursor: usize,
}

/// `current` moved by `delta` within a list of `len` entries (unchanged when
/// the list is empty).
pub open spec fn stepped_in(current: int, delta: int, len: int) -> int {
    if len == 0 {
        current
    } else {
        clamp(current + delta, 0, len - 1)
    }
}

/// The focused output moved by `delta`, clamped to the `len` outputs.
pub fn focus_step(focused: usize, len: usize, delta: isize) -> (r: usize)
    requires
        0 < len <= isize::MAX,
        focused < len,
        -1 <= delta <= 1,
    ensures
        r == clamp(focused + delta, 0, len - 1),
        r < len,
{
    step_cursor(focused, delta, len)
}

impl OutputsTab {
    /// The tab as it opens: the channel list focused, the first device.
    pub fn new() -> (r: Self)
        ensures
            r.focus == OutputsFocus::Channels,
            r.device_cursor == 0,
    {
        OutputsTab { focus: OutputsFocus::Channels, device_cursor: 0 }
    }

    /// Feed one key to the Outputs tab: Tab switches list, Up/Down move the
    /// focused output or the device cursor, `+` adds, `d` deletes, `r`
    /// refreshes, and Enter on the device list binds the focused output to the
    /// device under the cursor.
    pub fn handle_key(&mut self, key: OutputsKey, focused: &mut usize, outputs_len: usize, devices_len: usize) -> (r:
        OutputsAction)
        requires
            0 < outputs_len <= isize::MAX,
            devices_len <= isize::MAX,
            *old(focused) < outputs_len,
            old(self).device_cursor < isize::MAX,
        ensures
            *final(focused) < outputs_len,
            final(self).device_cursor < isize::MAX,
            match key {
                OutputsKey::Tab | OutputsKey::BackTab => {
                    &&& final(self).focus != old(self).focus
                    &&& final(self).device_cursor == old(self).device_cursor
                    &&& *final(focused) == *old(focused)
                    &&& r == OutputsAction::Handled
                },
                OutputsKey::Up | OutputsKey::Down => {
                    let delta: int = if key == OutputsKey::Up { -1 } else { 1 };
                    &&& final(self).focus == old(self).focus
                    &&& r == OutputsAction::Handled
                    &&& if old(self).focus == OutputsFocus::Channels {
                        &&& *final(focused) == clamp(*old(focused) + delta, 0, outputs_len - 1)
                        &&& final(self).device_cursor == old(self).device_cursor
                    } else {
                        &&& *final(focused) == *old(focused)
                        &&& final(self).device_cursor == stepped_in(
                            old(self).device_cursor as int,
                            delta,
                            devices_len as int,
                        )
                    }
                },
                OutputsKey::Plus => *final(self) == *old(self) && *final(focused) == *old(focused) && r
                    == OutputsAction::AddOutput,
                OutputsKey::Delete => *final(self) == *old(self) && *final(focused) == *old(focused) && r
                    == OutputsAction::DeleteFocused,
                OutputsKey::Refresh => *final(self) == *old(self) && *final(focused) == *old(focused) && r
                    == OutputsAction::RefreshDevices,
                OutputsKey::Enter => {
                    &&& *final(self) == *old(self)
                    &&& *final(focused) == *old(focused)
                    &&& r == if old(self).focus == OutputsFocus::Devices && old(self).device_cursor < devices_len {
                        OutputsAction::Bind(old(self).device_cursor as usize)
                    } else {
                        OutputsAction::Handled
                    }
                },
                OutputsKey::Other => *final(self) == *old(self) && *final(focused) == *old(focused) && r
                    == OutputsAction::Ignored,
            },
    {
        match key {
            OutputsKey::Tab | OutputsKey::BackTab => {
                self.focus = self.focus.toggled();
                OutputsAction::Handled
            },
            OutputsKey::Up | OutputsKey::Down => {
                let delta: isize = if matches!(key, OutputsKey::Up) {
                    -1
                } else {
                    1
                };
                match self.focus {
                    OutputsFocus::Channels => {
                        *focused = focus_step(*focused, outputs_len, delta);
                    },
                    OutputsFocus::Devices => {
                        if devices_len > 0 {
                            self.device_cursor = step_cursor(self.device_cursor, delta, devices_len);
                        }
                    },
                }
                OutputsAction::Handled
            },
            OutputsKey::Plus => OutputsAction::AddOutput,
            OutputsKey::Delete => OutputsAction::DeleteFocused,
            OutputsKey::Refresh => OutputsAction::RefreshDevices,
            OutputsKey::Enter => {
                if matches!(self.focus, OutputsFocus::Devices) && self.device_cursor < devices_len {
                    OutputsAction::Bind(self.device_cursor)
                } else {
                    OutputsAction::Handled
                }
            },
            OutputsKey::Other => OutputsAction::Ignored,
        }
    }

    /// Keep the device cursor on a freshly enumerated list of `len` devices.
    pub fn after_refresh(&mut self, len: usize)
        ensures
            final(self).focus == old(self).focus,
            final(self).device_cursor == (if old(self).device_cursor as int <= (if len > 0 { len - 1 } else { 0 }) {
                old(self).device_cursor as int
            } else if len > 0 {
                len - 1
            } else {
                0
            }),
    {
        let last: usize = if len > 0 {
            len - 1
        } else {
            0
        };
        if self.device_cursor > last {
            self.device_cursor = last;
        }
    }
}

/// Whether the focused output may be removed: every output but the default
/// one (id 0) can be.
pub fn plan_delete_output(ids: &[OutputId], focused: usize) -> (r: Result<usize, (String, ToastKind)>)
    requires
        focused < ids@.len(),
    ensures
        ids@[focused as int] == 0 ==> (r matches Err((t, k)) && t@ == "The default output cannot be removed"@ && k
            == ToastKind::Warn),
        ids@[focused as int] != 0 ==> r == Ok::<usize, (String, ToastKind)>(focused),
{
    if ids[focused] == 0 {
        Err((String::from_str("The default output cannot be removed"), ToastKind::Warn))
    } else {
        Ok(focused)
    }
}

/// The focused output after one was removed, leaving `remaining` (at least
/// one).
pub fn focus_after_removal(focused: usize, remaining: usize) -> (r: usize)
    requires
        remaining > 0,
    ensures
        r == (if focused < remaining { focused as int } else { remaining - 1 }),
        r < remaining,
{
    if focused < remaining {
        focused
    } else {
        remaining - 1
    }
}

/// The device `+` would add an output for, or the warning when the cursor is
/// on no device.
pub fn device_to_add(devices: &[AudioDevice], cursor: usize) -> (r: Result<&AudioDevice, (String, ToastKind)>)
    ensures
        cursor < devices@.len() ==> (r matches Ok(d) && *d == devices@[cursor as int]),
        cursor >= devices@.len() ==> (r matches Err((t, k)) && t@ == "No device selected \u{2014} press r to refresh"@
            && k == ToastKind::Warn),
{
    if cursor < devices.len() {
        Ok(&devices[cursor])
    } else {
        Err((String::from_str("No device selected \u{2014} press r to refresh"), ToastKind::Warn))
    }
}

/// `"Added output: <name>"`.
pub fn added_output_text(name: &str) -> (r: String)
    ensures
        r@ == "Added output: "@ + name@,
{
    let mut t = String::from_str("Added output: ");
    t.append(name);
    t
}

/// `"Bound to <name>"`.
pub fn bound_text(name: &str) -> (r: String)
    ensures
        r@ == "Bound to "@ + name@,
{
    let mut t = String::from_str("Bound to ");
    t.append(name);
    t
}

/// Output entry `e` (id and bound device name) is bound to device `device`.
pub open spec fn bound_to(e: (OutputId, Option<String>), device: Seq<char>) -> bool {
    e.1 matches Some(n) && n@ == device
}

/// The id of the first output bound to the device named `device`, given each
/// output's id and bound device name.
pub fn output_using(outputs: &[(OutputId, Option<String>)], device: &str) -> (r: Option<OutputId>)
    ensures
        r is None <==> forall|i: int|
            0 <= i < outputs@.len() ==> !bound_to(#[trigger] outputs@[i], device@),
        r matches Some(id) ==> exists|i: int|
            0 <= i < outputs@.len() && outputs@[i].0 == id && bound_to(outputs@[i], device@)
                && forall|j: int| 0 <= j < i ==> !bound_to(#[trigger] outputs@[j], device@),
{
    let mut i: usize = 0;
    while i < outputs.len()
        invariant
            i <= outputs@.len(),
            forall|j: int| 0 <= j < i ==> !bound_to(#[trigger] outputs@[j], device@),
        decreases outputs@.len() - i,
    {
        match &outputs[i].1 {
            Some(n) => {
                if crate::text::str_eq(n.as_str(), device) {
                    return Some(outputs[i].0);
                }
            },
            None => {},
        }
        i += 1;
    }
    None
}

} // verus!
