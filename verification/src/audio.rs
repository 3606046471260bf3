//! Input devices as the settings list them: each device that can record gets
//! an identifier made of its name, numbered from the second device of the
//! same name on, and the same numbering finds a device again by identifier.

use vstd::prelude::*;
use crate::text::{chars_of, chars_equal, push_decimal, string_of};

verus! {

/// An input device offered in the settings.
#[derive(Debug, PartialEq, Eq)]
pub struct AudioDevice {
    pub id: String,
    pub name: String,
    pub is_default: bool,
}

/// Mathematical model of an [`AudioDevice`].
pub struct DeviceModel {
    pub id: Seq<char>,
    pub name: Seq<char>,
    pub is_default: bool,
}

impl View for AudioDevice {
    type V = DeviceModel;

    open spec fn view(&self) -> DeviceModel {
        DeviceModel { id: self.id@, name: self.name@, is_default: self.is_default }
    }
}

/// Models of a sequence of devices.
pub open spec fn device_views(v: Seq<AudioDevice>) -> Seq<DeviceModel> {
    v.map_values(|d: AudioDevice| d@)
}

/// A device as the audio host reports it: its name, and whether it has a
/// default input configuration (devices without one cannot record).
#[derive(Debug, PartialEq, Eq)]
pub struct HostDevice {
    pub name: String,
    pub usable: bool,
}

/// Models of host devices: `(name, usable)`.
pub open spec fn host_views(v: Seq<HostDevice>) -> Seq<(Seq<char>, bool)> {
    v.map_values(|d: HostDevice| (d.name@, d.usable))
}

/// How many usable devices among `devs` are named `name`.
pub open spec fn usable_named(devs: Seq<(Seq<char>, bool)>, name: Seq<char>) -> nat
    decreases devs.len(),
{
    if devs.len() == 0 {
        0
    } else {
        usable_named(devs.drop_last(), name) + if devs.last().1 && devs.last().0 == name {
            1nat
        } else {
            0nat
        }
    }
}

/// The identifier of the `count`-th usable device named `name`: the name for
/// the first, `name (count)` for the others.
pub open spec fn device_id_spec(name: Seq<char>, count: nat) -> Seq<char> {
    if count == 1 {
        name
    } else {
        name + " ("@ + crate::text::decimal(count) + ")"@
    }
}

/// The identifier of the usable device at index `k`.
pub open spec fn assigned_id(devs: Seq<(Seq<char>, bool)>, k: int) -> Seq<char> {
    device_id_spec(devs[k].0, usable_named(devs.take(k + 1), devs[k].0))
}

/// The devices offered in the settings: the usable ones, in host order, with
/// their identifiers; the default is the first usable device with the
/// default device's name.
pub open spec fn device_list_spec(devs: Seq<(Seq<char>, bool)>, default_name: Seq<char>) -> Seq<DeviceModel>
    decreases devs.len(),
{
    if devs.len() == 0 {
        Seq::empty()
    } else {
        let k = devs.len() - 1;
        let r = device_list_spec(devs.drop_last(), default_name);
        if devs[k].1 {
            let count = usable_named(devs, devs[k].0);
            r.push(
                DeviceModel {
                    id: device_id_spec(devs[k].0, count),
                    name: devs[k].0,
                    is_default: devs[k].0 == default_name && count == 1,
                },
            )
        } else {
            r
        }
    }
}

/// The number of usable devices named like device `k` among the first `k + 1`.
fn count_usable_named(devs: &Vec<HostDevice>, k: usize) -> (r: usize)
    requires
        k < devs@.len(),
    ensures
        r == usable_named(host_views(devs@).take(k + 1), devs@[k as int].name@),
{
    let ghost hv = host_views(devs@);
    let n = devs.len();
    let end = k + 1;
    let name = chars_of(devs[k].name.as_str());
    let mut count: usize = 0;
    let mut i: usize = 0;
    proof {
        assert(hv.take(0) =~= Seq::<(Seq<char>, bool)>::empty());
    }
    while i < end
        invariant
            i <= end == k + 1,
            end <= n == devs@.len(),
            hv == host_views(devs@),
            name@ == devs@[k as int].name@,
            count == usable_named(hv.take(i as int), name@),
            count <= i,
        decreases end - i,
    {
        proof {
            assert(hv.take(i + 1).drop_last() =~= hv.take(i as int));
            assert(hv.take(i + 1).last() == hv[i as int]);
        }
        let usable = devs[i].usable;
        if usable && chars_equal(&chars_of(devs[i].name.as_str()), &name) {
            count = count + 1;
        }
        i = i + 1;
    }
    count
}

/// The identifier for a device name and its number among devices of that name.
fn device_id(name: &str, count: usize) -> (r: String)
    ensures
        r@ == device_id_spec(name@, count as nat),
{
    if count == 1 {
        return string_of(&chars_of(name));
    }
    let mut out = chars_of(name);
    crate::text::append_chars(&mut out, &chars_of(" ("));
    push_decimal(&mut out, count as u128);
    crate::text::append_chars(&mut out, &chars_of(")"));
    string_of(&out)
}

/// The devices to offer in the settings.
pub fn list_input_devices(devs: &Vec<HostDevice>, default_name: &str) -> (r: Vec<AudioDevice>)
    ensures
        device_views(r@) == device_list_spec(host_views(devs@), default_name@),
{
    let ghost hv = host_views(devs@);
    let mut r: Vec<AudioDevice> = Vec::new();
    let mut i: usize = 0;
    proof {
        assert(hv.take(0) =~= Seq::<(Seq<char>, bool)>::empty());
        assert(device_views(r@) =~= Seq::<DeviceModel>::empty());
    }
    while i < devs.len()
        invariant
            i <= devs@.len(),
            hv == host_views(devs@),
            device_views(r@) == device_list_spec(hv.take(i as int), default_name@),
        decreases devs@.len() - i,
    {
        proof {
            assert(hv.take(i + 1).drop_last() =~= hv.take(i as int));
            assert(hv.take(i + 1)[i as int] == hv[i as int]);
            assert(hv[i as int] == (devs@[i as int].name@, devs@[i as int].usable));
        }
        if devs[i].usable {
            let count = count_usable_named(devs, i);
            let id = device_id(devs[i].name.as_str(), count);
            let is_default = count == 1 && crate::text::str_equal(devs[i].name.as_str(), default_name);
            let ghost before = device_views(r@);
            r.push(AudioDevice { id, name: devs[i].name.clone(), is_default });
            proof {
                assert(device_views(r@) =~= before.push(r@[r@.len() - 1]@));
            }
        }
        i = i + 1;
    }
    proof {
        assert(hv.take(hv.len() as int) =~= hv);
    }
    r
}

/// Index of the first usable device, from index `i` on, whose identifier is
/// `id`.
pub open spec fn find_device_from(devs: Seq<(Seq<char>, bool)>, id: Seq<char>, i: int) -> Option<int>
    decreases devs.len() - i,
{
    if i < 0 || i >= devs.len() {
        None
    } else if devs[i].1 && assigned_id(devs, i) == id {
        Some(i)
    } else {
        find_device_from(devs, id, i + 1)
    }
}

/// The index of the first usable device with identifier `device_id`.
pub fn find_device(devs: &Vec<HostDevice>, device_id_text: &str) -> (r: Option<usize>)
    ensures
        match r {
            Some(k) => find_device_from(host_views(devs@), device_id_text@, 0) == Some(k as int),
            None => find_device_from(host_views(devs@), device_id_text@, 0) is None,
        },
{
    let ghost hv = host_views(devs@);
    let target = chars_of(device_id_text);
    let mut i: usize = 0;
    while i < devs.len()
        invariant
            i <= devs@.len(),
            hv == host_views(devs@),
            target@ == device_id_text@,
            find_device_from(hv, target@, 0) == find_device_from(hv, target@, i as int),
        decreases devs@.len() - i,
    {
        proof {
            assert(hv[i as int] == (devs@[i as int].name@, devs@[i as int].usable));
        }
        if devs[i].usable {
            let count = count_usable_named(devs, i);
            let id = device_id(devs[i].name.as_str(), count);
            if chars_equal(&chars_of(id.as_str()), &target) {
                return Some(i);
            }
        }
        i = i + 1;
    }
    None
}

/// Every usable device can be found again by the identifier it was given:
/// the search stops at it or at an earlier device with the same identifier.
pub proof fn law_assigned_ids_are_found(devs: Seq<(Seq<char>, bool)>, k: int)
    requires
        0 <= k < devs.len(),
        devs[k].1,
    ensures
        match find_device_from(devs, assigned_id(devs, k), 0) {
            Some(j) => j <= k && assigned_id(devs, j) == assigned_id(devs, k),
            None => false,
        },
{
    lemma_find_device_reaches(devs, assigned_id(devs, k), 0, k);
}

proof fn lemma_find_device_reaches(devs: Seq<(Seq<char>, bool)>, id: Seq<char>, i: int, k: int)
    requires
        0 <= i <= k < devs.len(),
        devs[k].1,
        assigned_id(devs, k) == id,
    ensures
        match find_device_from(devs, id, i) {
            Some(j) => i <= j <= k && assigned_id(devs, j) == id,
            None => false,
        },
    decreases k - i,
{
    if devs[i].1 && assigned_id(devs, i) == id {
    } else {
        lemma_find_device_reaches(devs, id, i + 1, k);
    }
}


/// The device to record from for a configured identifier, or the error that
/// names the identifier.
pub fn select_device(devs: &Vec<HostDevice>, device_id_text: &str) -> (r: Result<usize, String>)
    ensures
        match r {
            Ok(k) => find_device_from(host_views(devs@), device_id_text@, 0) == Some(k as int),
            Err(e) => find_device_from(host_views(devs@), device_id_text@, 0) is None && e@
                == "Device not found: "@ + device_id_text@ + ""@,
        },
{
    match find_device(devs, device_id_text) {
        Some(k) => Ok(k),
        None => Err(crate::text::concat3("Device not found: ", device_id_text, "")),
    }
}

/// Audio level events are sent at most once per this many milliseconds.
pub const LEVEL_THROTTLE_MS: u64 = 16;

/// Whether an audio level event is due at `now_ms`, the last one having been
/// sent at `last_emit_ms` (a clock that went back counts as no time passed).
pub fn level_event_due(now_ms: u64, last_emit_ms: u64) -> (b: bool)
    ensures
        b == (now_ms >= last_emit_ms && now_ms - last_emit_ms >= LEVEL_THROTTLE_MS),
{
    now_ms >= last_emit_ms && now_ms - last_emit_ms >= LEVEL_THROTTLE_MS
}

} // verus!
