//! Output devices, as the Outputs tab lists them.

use vstd::prelude::*;

use crate::text::{contains_chars, contains_seq, lowercase_str, lowercase_str_of, str_eq};

verus! {

/// A detected output device — display info only.
#[derive(Debug, PartialEq, Eq)]
pub struct AudioDevice {
    pub name: String,
    pub is_default: bool,
    /// True for Bluetooth transports where the platform reports them, otherwise
    /// a name hint.
    pub bt_hint: bool,
}

impl Clone for AudioDevice {
    fn clone(&self) -> (r: Self)
        ensures
            r == *self,
    {
        AudioDevice { name: self.name.clone(), is_default: self.is_default, bt_hint: self.bt_hint }
    }
}

/// Substrings of a lowercased device name that suggest a Bluetooth device.
pub open spec fn bluetooth_hints() -> Seq<Seq<char>> {
    seq![
        "airpods"@,
        "bluetooth"@,
        "wh-"@,
        "wf-"@,
        "buds"@,
        "jbl"@,
        "bose"@,
        "beats"@,
        "galaxy"@,
        "soundcore"@,
    ]
}

/// The lowercased name contains one of the Bluetooth hints.
pub open spec fn looks_like_bluetooth_spec(name: Seq<char>) -> bool {
    exists|i: int| 0 <= i < 10 && #[trigger] contains_seq(lowercase_str_of(name), bluetooth_hints()[i])
}

fn hint(i: usize) -> (r: &'static str)
    requires
        i < 10,
    ensures
        r@ == bluetooth_hints()[i as int],
{
    match i {
        0 => "airpods",
        1 => "bluetooth",
        2 => "wh-",
        3 => "wf-",
        4 => "buds",
        5 => "jbl",
        6 => "bose",
        7 => "beats",
        8 => "galaxy",
        _ => "soundcore",
    }
}

/// A cosmetic name heuristic: does the device name suggest Bluetooth?
pub fn looks_like_bluetooth(name: &str) -> (r: bool)
    ensures
        r == looks_like_bluetooth_spec(name@),
{
    let lower = lowercase_str(name);
    let mut i: usize = 0;
    while i < 10
        invariant
            i <= 10,
            lower@ == lowercase_str_of(name@),
            forall|k: int| 0 <= k < i ==> !contains_seq(lower@, #[trigger] bluetooth_hints()[k]),
        decreases 10 - i,
    {
        let h = crate::text::str_chars(hint(i));
        if contains_chars(lower.as_slice(), h.as_slice()) {
            assert(contains_seq(lowercase_str_of(name@), bluetooth_hints()[i as int]));
            return true;
        }
        i += 1;
    }
    false
}

/// `devices` with `device` merged in: a device of the same name (the first)
/// takes on its default and Bluetooth flags; otherwise it is appended.
pub fn push_unique(devices: &mut Vec<AudioDevice>, device: AudioDevice)
    ensures
        (forall|j: int| 0 <= j < old(devices)@.len() ==> old(devices)@[j].name@ != device.name@)
            ==> final(devices)@ == old(devices)@.push(device),
        forall|i: int|
            0 <= i < old(devices)@.len() && old(devices)@[i].name@ == device.name@ && (forall|j: int|
                0 <= j < i ==> old(devices)@[j].name@ != device.name@) ==> final(devices)@
                == old(devices)@.update(
                i,
                AudioDevice {
                    name: old(devices)@[i].name,
                    is_default: old(devices)@[i].is_default || device.is_default,
                    bt_hint: old(devices)@[i].bt_hint || device.bt_hint,
                },
            ),
{
    let mut i: usize = 0;
    while i < devices.len() && !str_eq(devices[i].name.as_str(), device.name.as_str())
        invariant
            i <= devices@.len(),
            devices@ == old(devices)@,
            forall|j: int| 0 <= j < i ==> devices@[j].name@ != device.name@,
        decreases devices@.len() - i,
    {
        i += 1;
    }
    if i < devices.len() {
        let existing = devices.remove(i);
        let merged = AudioDevice {
            name: existing.name,
            is_default: existing.is_default || device.is_default,
            bt_hint: existing.bt_hint || device.bt_hint,
        };
        devices.insert(i, merged);
        proof {
            assert forall|k: int|
                0 <= k < old(devices)@.len() && old(devices)@[k].name@ == device.name@ && (forall|j: int|
                    0 <= j < k ==> old(devices)@[j].name@ != device.name@) implies k == i by {
                if k < i {
                } else if k > i {
                    assert(old(devices)@[i as int].name@ != device.name@);
                }
            }
            assert(devices@ =~= old(devices)@.update(
                i as int,
                AudioDevice {
                    name: old(devices)@[i as int].name,
                    is_default: old(devices)@[i as int].is_default || device.is_default,
                    bt_hint: old(devices)@[i as int].bt_hint || device.bt_hint,
                },
            ));
        }
    } else {
        devices.push(device);
    }
}

} // verus!
