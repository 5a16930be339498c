//! The registry of devices: each device by identifier, in identifier order,
//! with the chips attached to it.

use crate::chip::{after, ChipManager, CreateParams};
use crate::response::ChipKind;
use crate::routes::str_eq;
use crate::text::{decimal, push_decimal, push_str};
use std::collections::BTreeMap;
use vstd::prelude::*;

verus! {

broadcast use vstd::laws_cmp::group_laws_cmp;

/// The identifier that the first device gets.
pub const INITIAL_DEVICE_ID: u32 = 1;

/// A device: its identifier, the transport's identifier for it, its name,
/// whether it is built into the simulator, its kind, and the identifiers
/// of its chips.
pub struct Device {
    pub id: u32,
    pub guid: String,
    pub name: String,
    pub builtin: bool,
    pub kind: String,
    pub chips: Vec<u32>,
}

/// The device under `k` has the transport identifier `guid`.
pub open spec fn has_guid(m: Map<u32, Device>, guid: Seq<char>, k: u32) -> bool {
    m.contains_key(k) && m[k].guid@ == guid
}

/// The name, and transport identifier, that a device gets where none is
/// given: `device-` and its identifier.
pub open spec fn default_name(id: u32) -> Seq<char> {
    "device-"@ + decimal(id as nat)
}

/// The text given, or `default` where none is.
pub open spec fn given_or(o: Option<&str>, default: Seq<char>) -> Seq<char> {
    match o {
        Some(t) => t@,
        None => default,
    }
}

/// A device with some device's transport identifier is registered.
pub open spec fn known_guid(m: Map<u32, Device>, guid: Option<&str>) -> bool {
    match guid {
        Some(g) => exists|k: u32| has_guid(m, g@, k),
        None => false,
    }
}

/// `d` has the identifier `id` and the given transport identifier, name
/// and kind (or their defaults).
pub open spec fn made_device(
    d: Device,
    id: u32,
    guid: Option<&str>,
    name: Option<&str>,
    builtin: bool,
    kind: Option<&str>,
) -> bool {
    &&& d.id == id
    &&& d.guid@ == given_or(guid, default_name(id))
    &&& d.name@ == given_or(name, default_name(id))
    &&& d.builtin == builtin
    &&& d.kind@ == given_or(kind, "UNKNOWN"@)
}

/// `d` is a new device with identifier `id`, the given transport
/// identifier, name and kind (or their defaults), and no chip.
pub open spec fn new_device(
    d: Device,
    id: u32,
    guid: Option<&str>,
    name: Option<&str>,
    builtin: bool,
    kind: Option<&str>,
) -> bool {
    &&& made_device(d, id, guid, name, builtin, kind)
    &&& d.chips@ == Seq::<u32>::empty()
}

/// The identifiers of the devices that are not built in.
pub open spec fn nonbuiltin(m: Map<u32, Device>) -> Set<u32> {
    m.dom().filter(|k: u32| !m[k].builtin)
}

/// What getting or creating a device with the transport identifier
/// `guid` does, from the devices `m` and the next identifier `next` to
/// `m2` and `next2`, returning `id` and `name_out`: where a device has that
/// transport identifier, the one with the smallest identifier is returned
/// and nothing changes; else a new device is registered under `next`.
pub open spec fn got_or_created(
    m: Map<u32, Device>,
    next: u32,
    m2: Map<u32, Device>,
    next2: u32,
    guid: Option<&str>,
    name: Option<&str>,
    builtin: bool,
    kind: Option<&str>,
    id: u32,
    name_out: Seq<char>,
) -> bool {
    if known_guid(m, guid) {
        &&& has_guid(m, guid.unwrap()@, id)
        &&& forall|j: u32| #[trigger] has_guid(m, guid.unwrap()@, j) ==> id <= j
        &&& name_out == m[id].name@
        &&& m2 == m
        &&& next2 == next
    } else {
        &&& id == next
        &&& next2 == after(next)
        &&& m2.contains_key(id)
        &&& m2.remove(id) == m.remove(id)
        &&& new_device(m2[id], id, guid, name, builtin, kind)
        &&& name_out == given_or(name, default_name(id))
    }
}

/// Getting or creating a device with a transport identifier leaves a
/// device with it whose identifier is the one returned and the smallest
/// of those with it, so that asking again with the same transport
/// identifier returns the same device and changes nothing.
pub proof fn lemma_get_or_create_again(
    m: Map<u32, Device>,
    next: u32,
    m2: Map<u32, Device>,
    next2: u32,
    guid: &str,
    name: Option<&str>,
    builtin: bool,
    kind: Option<&str>,
    id: u32,
    name_out: Seq<char>,
)
    requires
        got_or_created(m, next, m2, next2, Some(guid), name, builtin, kind, id, name_out),
    ensures
        known_guid(m2, Some(guid)),
        has_guid(m2, guid@, id),
        forall|j: u32| #[trigger] has_guid(m2, guid@, j) ==> id <= j,
        name_out == m2[id].name@,
{
    if !known_guid(m, Some(guid)) {
        assert(has_guid(m2, guid@, id));
        assert forall|j: u32| #[trigger] has_guid(m2, guid@, j) implies id <= j by {
            if j != id {
                assert(m2.remove(id).contains_key(j));
                assert(m2.remove(id)[j] == m.remove(id)[j]);
                assert(has_guid(m, guid@, j));
            }
        }
    } else {
        assert(has_guid(m2, guid@, id));
    }
}

/// `b` is `a` with other chips.
pub open spec fn same_device(a: Device, b: Device) -> bool {
    &&& a.id == b.id
    &&& a.guid@ == b.guid@
    &&& a.name@ == b.name@
    &&& a.builtin == b.builtin
    &&& a.kind@ == b.kind@
}

/// `s` without the occurrences of `v`.
pub open spec fn without(s: Seq<u32>, v: u32) -> Seq<u32>
    decreases s.len(),
{
    if s.len() == 0 {
        s
    } else {
        let w = without(s.drop_last(), v);
        if s.last() == v {
            w
        } else {
            w.push(s.last())
        }
    }
}

/// What detaching `chip_id` from the device under `device_id` does to the
/// devices, from `m` to `m2`: the device keeps its other chips, and is
/// removed where it has none left.
pub open spec fn chip_removed(m: Map<u32, Device>, m2: Map<u32, Device>, device_id: u32, chip_id: u32) -> bool {
    let rest = without(m[device_id].chips@, chip_id);
    &&& rest.len() == 0 ==> m2 == m.remove(device_id)
    &&& rest.len() > 0 ==> {
        &&& m2.contains_key(device_id)
        &&& m2.remove(device_id) == m.remove(device_id)
        &&& same_device(m2[device_id], m[device_id])
        &&& m2[device_id].chips@ == rest
    }
}

/// The device under `k` has the chip `chip_id`.
pub open spec fn holds_chip(m: Map<u32, Device>, chip_id: u32, k: u32) -> bool {
    m.contains_key(k) && m[k].chips@.contains(chip_id)
}

/// Detaching the only chip of the only device that is not built in leaves
/// no such device: the count that `remove_chip` returns is then zero.
pub proof fn lemma_last_chip_removed(
    m: Map<u32, Device>,
    m2: Map<u32, Device>,
    device_id: u32,
    chip_id: u32,
)
    requires
        nonbuiltin(m) == set![device_id],
        m[device_id].chips@ == seq![chip_id],
        chip_removed(m, m2, device_id, chip_id),
    ensures
        nonbuiltin(m2).len() == 0,
{
    let s = seq![chip_id];
    assert(s.drop_last() =~= Seq::<u32>::empty());
    assert(s.last() == chip_id);
    assert(without(s.drop_last(), chip_id) =~= Seq::<u32>::empty());
    assert(without(s, chip_id) == without(s.drop_last(), chip_id));
    assert(nonbuiltin(m2) =~= Set::<u32>::empty()) by {
        assert forall|k: u32| !nonbuiltin(m2).contains(k) by {
            if nonbuiltin(m2).contains(k) {
                assert(m.dom().contains(k) && k != device_id);
                assert(nonbuiltin(m).contains(k));
            }
        }
    }
}

/// The message of a chip that no device has.
pub open spec fn unknown_chip_message(chip_id: u32) -> Seq<char> {
    "failed to delete chip: could not find chip with id "@ + decimal(chip_id as nat)
}

/// The message of a chip that is not attached to the device.
pub open spec fn missing_chip_message(chip_id: u32) -> Seq<char> {
    "RemoveChip chip id "@ + decimal(chip_id as nat) + " not found"@
}

/// The message of a device that is not registered.
pub open spec fn missing_device_message(device_id: u32) -> Seq<char> {
    "RemoveChip device id "@ + decimal(device_id as nat) + " not found"@
}

/// Whether `chips` holds `c`.
fn contains_chip(chips: &Vec<u32>, c: u32) -> (r: bool)
    ensures
        r == chips@.contains(c),
{
    let mut i: usize = 0;
    while i < chips.len()
        invariant
            i <= chips@.len(),
            forall|j: int| 0 <= j < i ==> chips@[j] != c,
        decreases chips@.len() - i,
    {
        if chips[i] == c {
            assert(chips@[i as int] == c);
            return true;
        }
        i = i + 1;
    }
    false
}

/// A copy of `t`.
fn own(t: &str) -> (r: String)
    ensures
        r@ == t@,
{
    let mut s = String::new();
    push_str(&mut s, t);
    s
}

/// The devices by identifier, and the identifier that the next device gets.
pub struct DeviceManager {
    devices: BTreeMap<u32, Device>,
    ids: u32,
}

impl DeviceManager {
    /// The identifier that the next device gets.
    pub closed spec fn next(&self) -> u32 {
        self.ids
    }

    /// The devices, by identifier.
    pub closed spec fn devices(&self) -> Map<u32, Device> {
        self.devices@
    }

    /// Every device is kept under its own identifier.
    pub open spec fn wf(&self) -> bool {
        forall|k: u32| #[trigger] self.devices().contains_key(k) ==> self.devices()[k].id == k
    }

    /// A registry with no device, which hands out `INITIAL_DEVICE_ID` first.
    pub fn new() -> (r: Self)
        ensures
            r.wf(),
            r.next() == INITIAL_DEVICE_ID,
            r.devices() == Map::<u32, Device>::empty(),
    {
        DeviceManager { devices: BTreeMap::new(), ids: INITIAL_DEVICE_ID }
    }

    /// The smallest identifier of a device with the transport identifier
    /// `guid`, if there is one.
    pub fn find_guid(&self, guid: &str) -> (r: Option<u32>)
        ensures
            match r {
                Some(k) => has_guid(self.devices(), guid@, k) && forall|j: u32|
                    #[trigger] has_guid(self.devices(), guid@, j) ==> k <= j,
                None => forall|j: u32| !#[trigger] has_guid(self.devices(), guid@, j),
            },
    {
        let mut found: Option<u32> = None;
        for k in it: self.devices.keys()
            invariant
                match found {
                    Some(f) => has_guid(self.devices(), guid@, f) && forall|i: int|
                        0 <= i < it.index() && has_guid(self.devices(), guid@, *it.seq()[i]) ==> f
                            <= *it.seq()[i],
                    None => forall|i: int|
                        0 <= i < it.index() ==> !has_guid(self.devices(), guid@, *it.seq()[i]),
                },
        {
            let kk: u32 = *k;
            match self.devices.get(&kk) {
                Some(d) => {
                    if str_eq(d.guid.as_str(), guid) {
                        match found {
                            Some(f) => {
                                if kk < f {
                                    found = Some(kk);
                                }
                            },
                            None => {
                                found = Some(kk);
                            },
                        }
                    }
                },
                None => {},
            }
        }
        found
    }

    /// The number of devices that are not built in.
    pub fn count_nonbuiltin(&self) -> (r: usize)
        ensures
            r == nonbuiltin(self.devices()).len(),
    {
        let ghost m = self.devices();
        let ghost mut counted: Set<u32> = Set::empty();
        let mut n: usize = 0;
        let total = self.devices.len();
        for k in it: self.devices.keys()
            invariant
                m == self.devices(),
                total == m.dom().len(),
                it.seq().no_duplicates(),
                it.seq().len() == m.dom().len(),
                counted.finite(),
                n == counted.len(),
                n <= it.index(),
                forall|k: u32| #[trigger]
                    counted.contains(k) ==> m.contains_key(k) && !m[k].builtin && exists|j: int|
                        0 <= j < it.index() && *it.seq()[j] == k,
                forall|k: u32|
                    m.contains_key(k) && !m[k].builtin ==> #[trigger] counted.contains(k) || exists|
                        j: int,
                    |
                        it.index() <= j < it.seq().len() && *it.seq()[j] == k,
        {
            let kk: u32 = *k;
            match self.devices.get(&kk) {
                Some(d) => {
                    if !d.builtin {
                        proof {
                            assert(!counted.contains(kk)) by {
                                if counted.contains(kk) {
                                    let j = choose|j: int| 0 <= j < it.index() && *it.seq()[j] == kk;
                                    assert(it.seq()[j] == it.seq()[it.index() as int]);
                                }
                            }
                            counted = counted.insert(kk);
                        }
                        n = n + 1;
                    }
                },
                None => {},
            }
        }
        proof {
            assert(counted =~= nonbuiltin(m));
        }
        n
    }

    /// The device under `device_id`, if there is one.
    pub fn device(&self, device_id: u32) -> (r: Option<&Device>)
        ensures
            match r {
                Some(d) => self.devices().contains_key(device_id) && *d == self.devices()[device_id],
                None => !self.devices().contains_key(device_id),
            },
    {
        self.devices.get(&device_id)
    }

    /// Hands out an identifier.
    fn next_id(&mut self) -> (r: u32)
        ensures
            r == old(self).next(),
            final(self).next() == after(r),
            final(self).devices() == old(self).devices(),
    {
        let id = self.ids;
        self.ids = self.ids.wrapping_add(1);
        id
    }

    /// The identifier and name of the device with the transport identifier
    /// `guid` (the smallest identifier where several have it), or else of
    /// a new device under the next identifier, with the given name, kind
    /// and transport identifier or their defaults.
    pub fn get_or_create_device(
        &mut self,
        guid: Option<&str>,
        name: Option<&str>,
        builtin: bool,
        kind: Option<&str>,
    ) -> (r: (u32, String))
        requires
            old(self).wf(),
        ensures
            final(self).wf(),
            got_or_created(
                old(self).devices(),
                old(self).next(),
                final(self).devices(),
                final(self).next(),
                guid,
                name,
                builtin,
                kind,
                r.0,
                r.1@,
            ),
    {
        match guid {
            Some(g) => {
                match self.find_guid(g) {
                    Some(k) => {
                        let d = self.devices.get(&k).unwrap();
                        return (k, own(d.name.as_str()));
                    },
                    None => {},
                }
            },
            None => {},
        }
        let id = self.next_id();
        let mut default = String::new();
        push_str(&mut default, "device-");
        push_decimal(&mut default, id as u64, 0);
        assert(default@ =~= default_name(id));
        let name_given = match name {
            Some(n) => own(n),
            None => own(default.as_str()),
        };
        let guid_given = match guid {
            Some(g) => own(g),
            None => own(default.as_str()),
        };
        let kind_given = match kind {
            Some(t) => own(t),
            None => own("UNKNOWN"),
        };
        let returned = own(name_given.as_str());
        let device = Device {
            id,
            guid: guid_given,
            name: name_given,
            builtin,
            kind: kind_given,
            chips: Vec::new(),
        };
        self.devices.insert(id, device);
        proof {
            assert forall|k: u32| #[trigger] self.devices().contains_key(k) implies self.devices()[k].id
                == k by {
                if k != id {
                    assert(old(self).devices().contains_key(k));
                }
            }
            assert(self.devices().remove(id) =~= old(self).devices().remove(id));
        }
        (id, returned)
    }

    /// The message `prefix`, the identifier and ` not found`.
    fn not_found(prefix: &str, id: u32) -> (r: String)
        ensures
            r@ == prefix@ + decimal(id as nat) + " not found"@,
    {
        let mut s = String::new();
        push_str(&mut s, prefix);
        push_decimal(&mut s, id as u64, 0);
        push_str(&mut s, " not found");
        assert(s@ =~= prefix@ + decimal(id as nat) + " not found"@);
        s
    }

    /// Detaches `chip_id` from the device under `device_id`, and removes the
    /// device where it has no chip left; returns the number of devices left
    /// that are not built in. Fails, changing nothing, where there is no
    /// such device or the chip is not attached to it.
    pub fn remove_chip(&mut self, device_id: u32, chip_id: u32) -> (r: Result<usize, String>)
        requires
            old(self).wf(),
        ensures
            final(self).wf(),
            final(self).next() == old(self).next(),
            !old(self).devices().contains_key(device_id) ==> {
                &&& r matches Err(e) && e@ == missing_device_message(device_id)
                &&& final(self).devices() == old(self).devices()
            },
            old(self).devices().contains_key(device_id) && !old(
                self,
            ).devices()[device_id].chips@.contains(chip_id) ==> {
                &&& r matches Err(e) && e@ == missing_chip_message(chip_id)
                &&& final(self).devices() == old(self).devices()
            },
            old(self).devices().contains_key(device_id) && old(
                self,
            ).devices()[device_id].chips@.contains(chip_id) ==> {
                &&& chip_removed(old(self).devices(), final(self).devices(), device_id, chip_id)
                &&& r == Ok::<usize, String>(nonbuiltin(final(self).devices()).len() as usize)
            },
    {
        let (found, rest) = match self.devices.get(&device_id) {
            None => {
                return Err(Self::not_found("RemoveChip device id ", device_id));
            },
            Some(d) => {
                let mut rest: Vec<u32> = Vec::new();
                let mut found = false;
                let mut i: usize = 0;
                while i < d.chips.len()
                    invariant
                        i <= d.chips@.len(),
                        rest@ == without(d.chips@.take(i as int), chip_id),
                        found == d.chips@.take(i as int).contains(chip_id),
                    decreases d.chips@.len() - i,
                {
                    let c = d.chips[i];
                    proof {
                        assert(d.chips@.take(i + 1).drop_last() =~= d.chips@.take(i as int));
                        assert(d.chips@.take(i + 1) =~= d.chips@.take(i as int).push(c));
                        let prev = d.chips@.take(i as int);
                        assert(prev.push(c).contains(chip_id) == (prev.contains(chip_id) || c
                            == chip_id)) by {
                            if c == chip_id {
                                assert(prev.push(c)[i as int] == c);
                            }
                            if prev.contains(chip_id) {
                                let j = choose|j: int| 0 <= j < prev.len() && prev[j] == chip_id;
                                assert(prev.push(c)[j] == chip_id);
                            }
                        }
                    }
                    if c == chip_id {
                        found = true;
                    } else {
                        rest.push(c);
                    }
                    i = i + 1;
                }
                proof {
                    assert(d.chips@.take(i as int) =~= d.chips@);
                }
                (found, rest)
            },
        };
        if !found {
            return Err(Self::not_found("RemoveChip chip id ", chip_id));
        }
        let mut device = self.devices.remove(&device_id).unwrap();
        let keep = rest.len() > 0;
        device.chips = rest;
        if keep {
            self.devices.insert(device_id, device);
        }
        proof {
            assert forall|k: u32| #[trigger] self.devices().contains_key(k) implies self.devices()[k].id
                == k by {
                if k != device_id {
                    assert(old(self).devices().contains_key(k));
                }
            }
            if keep {
                assert(self.devices().remove(device_id) =~= old(self).devices().remove(device_id));
            }
        }
        Ok(self.count_nonbuiltin())
    }

    /// Detaches `chip_id` from the device under `device_id` as `remove_chip`
    /// does, without reporting how it went.
    pub fn remove_chip_cxx(&mut self, device_id: u32, chip_id: u32)
        requires
            old(self).wf(),
        ensures
            final(self).wf(),
            final(self).next() == old(self).next(),
            if holds_chip(old(self).devices(), chip_id, device_id) {
                chip_removed(old(self).devices(), final(self).devices(), device_id, chip_id)
            } else {
                final(self).devices() == old(self).devices()
            },
    {
        let _ = self.remove_chip(device_id, chip_id);
    }

    /// Detaches `chip_id` from its device, as `remove_chip` does; where
    /// several devices have it, from the one with the smallest identifier.
    /// Fails, changing nothing, where no device has it.
    pub fn delete_chip(&mut self, chip_id: u32) -> (r: Result<usize, String>)
        requires
            old(self).wf(),
        ensures
            final(self).wf(),
            final(self).next() == old(self).next(),
            (forall|k: u32| !#[trigger] holds_chip(old(self).devices(), chip_id, k)) ==> {
                &&& r matches Err(e) && e@ == unknown_chip_message(chip_id)
                &&& final(self).devices() == old(self).devices()
            },
            (exists|k: u32| #[trigger] holds_chip(old(self).devices(), chip_id, k)) ==> exists|d: u32|
                {
                    &&& #[trigger] holds_chip(old(self).devices(), chip_id, d)
                    &&& forall|j: u32| #[trigger]
                        holds_chip(old(self).devices(), chip_id, j) ==> d <= j
                    &&& chip_removed(old(self).devices(), final(self).devices(), d, chip_id)
                    &&& r == Ok::<usize, String>(nonbuiltin(final(self).devices()).len() as usize)
                },
    {
        match self.find_chip(chip_id) {
            None => {
                let mut s = String::new();
                push_str(&mut s, "failed to delete chip: could not find chip with id ");
                push_decimal(&mut s, chip_id as u64, 0);
                assert(s@ =~= unknown_chip_message(chip_id));
                Err(s)
            },
            Some(d) => {
                let r = self.remove_chip(d, chip_id);
                assert(holds_chip(old(self).devices(), chip_id, d));
                r
            },
        }
    }

    /// The smallest identifier of a device that has the chip `chip_id`, if
    /// there is one.
    pub fn find_chip(&self, chip_id: u32) -> (r: Option<u32>)
        ensures
            match r {
                Some(k) => holds_chip(self.devices(), chip_id, k) && forall|j: u32|
                    #[trigger] holds_chip(self.devices(), chip_id, j) ==> k <= j,
                None => forall|j: u32| !#[trigger] holds_chip(self.devices(), chip_id, j),
            },
    {
        let mut found: Option<u32> = None;
        for k in it: self.devices.keys()
            invariant
                match found {
                    Some(f) => holds_chip(self.devices(), chip_id, f) && forall|i: int|
                        0 <= i < it.index() && holds_chip(self.devices(), chip_id, *it.seq()[i])
                            ==> f <= *it.seq()[i],
                    None => forall|i: int|
                        0 <= i < it.index() ==> !holds_chip(self.devices(), chip_id, *it.seq()[i]),
                },
        {
            let kk: u32 = *k;
            match self.devices.get(&kk) {
                Some(d) => {
                    if contains_chip(&d.chips, chip_id) {
                        match found {
                            Some(f) => {
                                if kk < f {
                                    found = Some(kk);
                                }
                            },
                            None => {
                                found = Some(kk);
                            },
                        }
                    }
                },
                None => {},
            }
        }
        found
    }

    /// Attaches `chip_id` to the device under `device_id`.
    fn attach(&mut self, device_id: u32, chip_id: u32)
        requires
            old(self).wf(),
            old(self).devices().contains_key(device_id),
        ensures
            final(self).wf(),
            final(self).next() == old(self).next(),
            final(self).devices().contains_key(device_id),
            final(self).devices().remove(device_id) == old(self).devices().remove(device_id),
            same_device(final(self).devices()[device_id], old(self).devices()[device_id]),
            final(self).devices()[device_id].chips@ == old(self).devices()[device_id].chips@.push(
                chip_id,
            ),
    {
        let mut device = self.devices.remove(&device_id).unwrap();
        device.chips.push(chip_id);
        self.devices.insert(device_id, device);
        proof {
            assert forall|k: u32| #[trigger] self.devices().contains_key(k) implies self.devices()[k].id
                == k by {
                if k != device_id {
                    assert(old(self).devices().contains_key(k));
                }
            }
            assert(self.devices().remove(device_id) =~= old(self).devices().remove(device_id));
        }
    }

    /// Adds a chip made from `create_params` to the device with the
    /// transport identifier `device_guid`, which is registered first (as a
    /// built-in device where the chip is a Bluetooth beacon) where there is
    /// none; returns the device's and the chip's identifiers.
    pub fn add_chip<E: Clone>(
        &mut self,
        chips: &mut ChipManager<E>,
        device_guid: &str,
        device_name: &str,
        create_params: &CreateParams,
    ) -> (r: Result<(u32, u32), String>)
        requires
            old(self).wf(),
            old(chips).wf(),
        ensures
            final(self).wf(),
            final(chips).wf(),
            r matches Ok((device_id, chip_id)) && {
                &&& chip_id == old(chips).next()
                &&& final(chips).next() == after(chip_id)
                &&& final(chips).chips().contains_key(chip_id)
                &&& final(chips).chips()[chip_id].made_from(
                    chip_id,
                    device_id,
                    device_name@,
                    *create_params,
                )
                &&& final(chips).chips().remove(chip_id) == old(chips).chips().remove(chip_id)
                &&& final(self).devices().contains_key(device_id)
                &&& final(self).devices()[device_id].chips@.last() == chip_id
                &&& if known_guid(old(self).devices(), Some(device_guid)) {
                    &&& has_guid(old(self).devices(), device_guid@, device_id)
                    &&& forall|j: u32| #[trigger]
                        has_guid(old(self).devices(), device_guid@, j) ==> device_id <= j
                    &&& final(self).next() == old(self).next()
                    &&& final(self).devices().remove(device_id) == old(self).devices().remove(
                        device_id,
                    )
                    &&& same_device(final(self).devices()[device_id], old(self).devices()[device_id])
                    &&& final(self).devices()[device_id].chips@ == old(
                        self,
                    ).devices()[device_id].chips@.push(chip_id)
                } else {
                    &&& device_id == old(self).next()
                    &&& final(self).next() == after(old(self).next())
                    &&& final(self).devices().remove(device_id) == old(self).devices().remove(
                        device_id,
                    )
                    &&& final(self).devices()[device_id].chips@ == seq![chip_id]
                    &&& made_device(
                        final(self).devices()[device_id],
                        device_id,
                        Some(device_guid),
                        Some(device_name),
                        create_params.kind == ChipKind::BluetoothBeacon,
                        None,
                    )
                }
            },
    {
        let builtin = match create_params.kind {
            ChipKind::BluetoothBeacon => true,
            _ => false,
        };
        let (device_id, _) = self.get_or_create_device(
            Some(device_guid),
            Some(device_name),
            builtin,
            None,
        );
        let chip = match chips.new_chip(device_id, device_name, create_params) {
            Ok(c) => c,
            Err(e) => {
                return Err(e);
            },
        };
        let chip_id = chip.id;
        self.attach(device_id, chip_id);
        Ok((device_id, chip_id))
    }
}

} // verus!
