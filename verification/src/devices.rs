//! Results of the device registry that are handed to the C++ side.

use crate::chip::CreateParams;
use crate::response::ChipKind;
use crate::response::{contains_chars, has_substring};
use crate::routes::str_eq;
use crate::display::AdvertiseData;
use crate::text::{chars_of, decimal, hex_char, lemma_decimal_nonempty, push_decimal};
use crate::text::push_str;
use crate::transport::WirelessParams;
use vstd::prelude::*;

verus! {

/// The result of adding a chip: the device and chip identifiers, or an error.
pub struct AddChipResultCxx {
    device_id: u32,
    chip_id: u32,
    is_error: bool,
}

impl AddChipResultCxx {
    /// The identifiers given to a chip that was added.
    pub fn added(device_id: u32, chip_id: u32) -> (r: Self)
        ensures
            r.spec_device_id() == device_id,
            r.spec_chip_id() == chip_id,
            !r.spec_is_error(),
    {
        AddChipResultCxx { device_id, chip_id, is_error: false }
    }

    /// The result of a chip that could not be added: both identifiers are
    /// the largest `u32`.
    pub fn error() -> (r: Self)
        ensures
            r.spec_device_id() == u32::MAX,
            r.spec_chip_id() == u32::MAX,
            r.spec_is_error(),
    {
        AddChipResultCxx { device_id: u32::MAX, chip_id: u32::MAX, is_error: true }
    }

    /// The result of an attempt to add a chip: the device and chip
    /// identifiers it was given, or an error (see `error`).
    pub fn from_result(r: Result<(u32, u32), String>) -> (res: Self)
        ensures
            match r {
                Ok((d, c)) => res.spec_device_id() == d && res.spec_chip_id() == c
                    && !res.spec_is_error(),
                Err(_) => res.spec_device_id() == u32::MAX && res.spec_chip_id() == u32::MAX
                    && res.spec_is_error(),
            },
    {
        match r {
            Ok((d, c)) => Self::added(d, c),
            Err(_) => Self::error(),
        }
    }

    pub closed spec fn spec_device_id(&self) -> u32 {
        self.device_id
    }

    pub closed spec fn spec_chip_id(&self) -> u32 {
        self.chip_id
    }

    pub closed spec fn spec_is_error(&self) -> bool {
        self.is_error
    }

    /// The device identifier.
    pub fn get_device_id(&self) -> (r: u32)
        ensures
            r == self.spec_device_id(),
    {
        self.device_id
    }

    /// The chip identifier.
    pub fn get_chip_id(&self) -> (r: u32)
        ensures
            r == self.spec_chip_id(),
    {
        self.chip_id
    }

    /// Whether the chip could not be added.
    pub fn is_error(&self) -> (r: bool)
        ensures
            r == self.spec_is_error(),
    {
        self.is_error
    }
}


/// The registry's kind for a chip kind named by the C++ side, and whether
/// its emulated chip is a Bluetooth or a UWB one (else a Wi-Fi one):
/// `BLUETOOTH`, `WIFI` and `UWB`; no other name is known.
pub open spec fn named_kind(kind: Seq<char>) -> Option<(ChipKind, bool, bool)> {
    if kind == "BLUETOOTH"@ {
        Some((ChipKind::Bluetooth, true, false))
    } else if kind == "WIFI"@ {
        Some((ChipKind::Wifi, false, false))
    } else if kind == "UWB"@ {
        Some((ChipKind::Uwb, false, true))
    } else {
        None
    }
}

/// A copy of a text.
fn text_copy(t: &str) -> (r: String)
    ensures
        r@ == t@,
{
    let mut s = String::new();
    push_str(&mut s, t);
    assert(s@ =~= t@);
    s
}

/// What the C++ side's request to add a chip asks for: the chip of the
/// named kind with the given address, name (none where it is empty),
/// manufacturer and product name, and the emulated chip of that kind, a
/// Bluetooth or UWB one at the same address; `None` for an unknown kind,
/// which the request answers with an error.
pub fn chip_create_params(
    chip_kind: &str,
    chip_address: &str,
    chip_name: &str,
    chip_manufacturer: &str,
    chip_product_name: &str,
) -> (r: Option<(CreateParams, WirelessParams)>)
    ensures
        match named_kind(chip_kind@) {
            None => r is None,
            Some((kind, bt, uwb)) => r matches Some((p, w)) && {
                &&& p.kind == kind
                &&& p.address@ == chip_address@
                &&& (if chip_name@.len() == 0 {
                    p.name is None
                } else {
                    p.name matches Some(n) && n@ == chip_name@
                })
                &&& p.manufacturer@ == chip_manufacturer@
                &&& p.product_name@ == chip_product_name@
                &&& (bt ==> (w matches WirelessParams::Bluetooth { address } && address@ == chip_address@))
                &&& (uwb ==> (w matches WirelessParams::Uwb { address } && address@ == chip_address@))
                &&& (!bt && !uwb ==> w is Wifi)
            },
        },
{
    proof {
        reveal_strlit("BLUETOOTH");
        reveal_strlit("WIFI");
        reveal_strlit("UWB");
    }
    let (kind, wireless) = if str_eq(chip_kind, "BLUETOOTH") {
        (ChipKind::Bluetooth, WirelessParams::Bluetooth { address: text_copy(chip_address) })
    } else if str_eq(chip_kind, "WIFI") {
        (ChipKind::Wifi, WirelessParams::Wifi)
    } else if str_eq(chip_kind, "UWB") {
        (ChipKind::Uwb, WirelessParams::Uwb { address: text_copy(chip_address) })
    } else {
        return None;
    };
    let name = if chip_name.unicode_len() == 0 {
        None
    } else {
        Some(text_copy(chip_name))
    };
    Some(
        (
            CreateParams {
                kind,
                address: text_copy(chip_address),
                name,
                manufacturer: text_copy(chip_manufacturer),
                product_name: text_copy(chip_product_name),
            },
            wireless,
        ),
    )
}


/// The first position at which a device has exactly the name; -1 for none.
pub open spec fn first_named(ds: Seq<(u32, Seq<char>)>, name: Seq<char>) -> int
    decreases ds.len(),
{
    if ds.len() == 0 {
        -1
    } else {
        let f = first_named(ds.drop_last(), name);
        if f >= 0 {
            f
        } else if ds.last().1 == name {
            ds.len() - 1
        } else {
            -1
        }
    }
}

/// How many devices have the name in theirs.
pub open spec fn named_like(ds: Seq<(u32, Seq<char>)>, name: Seq<char>) -> nat
    decreases ds.len(),
{
    if ds.len() == 0 {
        0
    } else {
        named_like(ds.drop_last(), name) + if has_substring(ds.last().1, name) {
            1nat
        } else {
            0nat
        }
    }
}

/// The last position at which a device has the name in its own; -1 for
/// none.
pub open spec fn last_like(ds: Seq<(u32, Seq<char>)>, name: Seq<char>) -> int
    decreases ds.len(),
{
    if ds.len() == 0 {
        -1
    } else if has_substring(ds.last().1, name) {
        ds.len() - 1
    } else {
        last_like(ds.drop_last(), name)
    }
}

/// The device that a patch is for, among devices given by identifier and
/// name in the registry's order: the one with the identifier, where one is
/// given; else the first with exactly the name, else the only one whose
/// name holds the name. The errors say that there is no such identifier,
/// that several names hold the name, or that none does.
pub open spec fn patch_target(ds: Seq<(u32, Seq<char>)>, id: Option<u32>, name: Seq<char>) -> Result<
    u32,
    Seq<char>,
> {
    match id {
        Some(i) => if exists|k: int| 0 <= k < ds.len() && ds[k].0 == i {
            Ok(i)
        } else {
            Err("No such device with id "@ + decimal(i as nat))
        },
        None => if first_named(ds, name) >= 0 {
            Ok(ds[first_named(ds, name)].0)
        } else if named_like(ds, name) >= 2 {
            Err("Multiple ambiguous matches were found with substring "@ + name)
        } else if named_like(ds, name) == 1 {
            Ok(ds[last_like(ds, name)].0)
        } else {
            Err("No such device with name "@ + name)
        },
    }
}

/// The identifiers and names of devices, as characters.
pub open spec fn device_names(ds: Seq<(u32, String)>) -> Seq<(u32, Seq<char>)> {
    Seq::new(ds.len(), |k: int| (ds[k].0, ds[k].1@))
}

proof fn lemma_first_named_bounds(ds: Seq<(u32, Seq<char>)>, name: Seq<char>)
    ensures
        -1 <= first_named(ds, name) < ds.len(),
        first_named(ds, name) >= 0 ==> ds[first_named(ds, name)].1 == name,
        first_named(ds, name) < 0 ==> forall|k: int| 0 <= k < ds.len() ==> ds[k].1 != name,
    decreases ds.len(),
{
    if ds.len() > 0 {
        lemma_first_named_bounds(ds.drop_last(), name);
        if first_named(ds, name) < 0 {
            assert forall|k: int| 0 <= k < ds.len() implies ds[k].1 != name by {
                if k < ds.len() - 1 {
                    assert(ds.drop_last()[k] == ds[k]);
                }
            }
        }
    }
}

proof fn lemma_last_like_bounds(ds: Seq<(u32, Seq<char>)>, name: Seq<char>)
    ensures
        -1 <= last_like(ds, name) < ds.len(),
        named_like(ds, name) > 0 ==> last_like(ds, name) >= 0,
    decreases ds.len(),
{
    if ds.len() > 0 {
        lemma_last_like_bounds(ds.drop_last(), name);
    }
}

/// Finds the device that a patch is for (see `patch_target`): returns its
/// identifier, or the error.
pub fn find_patch_target(devices: &Vec<(u32, String)>, id: Option<u32>, name: &str) -> (r: Result<u32, String>)
    ensures
        match patch_target(device_names(devices@), id, name@) {
            Ok(i) => r == Ok::<u32, String>(i),
            Err(m) => r matches Err(e) && e@ == m,
        },
{
    let ghost ds = device_names(devices@);
    match id {
        Some(i) => {
            let mut k: usize = 0;
            while k < devices.len()
                invariant
                    k <= devices@.len(),
                    ds == device_names(devices@),
                    id == Some(i),
                    forall|j: int| 0 <= j < k ==> ds[j].0 != i,
                decreases devices@.len() - k,
            {
                if devices[k].0 == i {
                    assert(0 <= k < ds.len() && ds[k as int].0 == i);
                    assert(exists|j: int| 0 <= j < ds.len() && ds[j].0 == i);
                    return Ok(i);
                }
                k = k + 1;
            }
            let mut e = String::new();
            push_str(&mut e, "No such device with id ");
            proof {
                lemma_decimal_nonempty(i as nat);
            }
            push_decimal(&mut e, i as u64, 0);
            assert(e@ =~= "No such device with id "@ + decimal(i as nat));
            Err(e)
        },
        None => {
            let n = chars_of(name);
            let mut target: Option<usize> = None;
            let mut multiple = false;
            let mut k: usize = 0;
            while k < devices.len()
                invariant
                    k <= devices@.len(),
                    ds == device_names(devices@),
                    id is None,
                    n@ == name@,
                    first_named(ds.take(k as int), name@) < 0,
                    target is None <==> named_like(ds.take(k as int), name@) == 0,
                    target matches Some(t) ==> t as int == last_like(ds.take(k as int), name@),
                    multiple == (named_like(ds.take(k as int), name@) >= 2),
                decreases devices@.len() - k,
            {
                let nm = devices[k].1.as_str();
                assert(nm@ == ds[k as int].1);
                let h = chars_of(nm);
                assert(ds.take(k + 1).drop_last() =~= ds.take(k as int));
                assert(ds.take(k + 1).last() == ds[k as int]);
                if contains_chars(&h, &n) {
                    if str_eq(nm, name) {
                        proof {
                            lemma_first_named_prefix(ds, k as int + 1, name@);
                        }
                        return Ok(devices[k].0);
                    }
                    multiple = target.is_some();
                    target = Some(k);
                } else {
                    proof {
                        if ds[k as int].1 == name@ {
                            assert(ds[k as int].1.subrange(0, 0 + name@.len() as int) =~= name@);
                            assert(has_substring(ds[k as int].1, name@));
                        }
                    }
                }
                k = k + 1;
            }
            assert(ds.take(k as int) =~= ds);
            proof {
                lemma_last_like_bounds(ds, name@);
            }
            if multiple {
                let mut e = String::new();
                push_str(&mut e, "Multiple ambiguous matches were found with substring ");
                push_str(&mut e, name);
                return Err(e);
            }
            match target {
                Some(t) => Ok(devices[t].0),
                None => {
                    let mut e = String::new();
                    push_str(&mut e, "No such device with name ");
                    push_str(&mut e, name);
                    Err(e)
                },
            }
        },
    }
}

/// A device with exactly the name at the end of a prefix where none had it
/// before is the first one.
proof fn lemma_first_named_prefix(ds: Seq<(u32, Seq<char>)>, m: int, name: Seq<char>)
    requires
        0 < m <= ds.len(),
        first_named(ds.take(m - 1), name) < 0,
        ds[m - 1].1 == name,
    ensures
        first_named(ds, name) == m - 1,
    decreases ds.len(),
{
    if ds.len() == m {
        assert(ds.drop_last() =~= ds.take(m - 1));
    } else {
        assert(ds.drop_last().take(m - 1) =~= ds.take(m - 1));
        assert(ds.drop_last()[m - 1] == ds[m - 1]);
        lemma_first_named_prefix(ds.drop_last(), m, name);
    }
}


/// A beacon chip to create: its address, how it advertises, and its packet
/// data.
#[derive(Debug)]
pub struct BeaconCreate {
    pub address: String,
    /// The advertising interval in milliseconds, where one is given.
    pub interval_ms: Option<u64>,
    pub scannable: bool,
    pub adv_data: AdvertiseData,
}

/// The radio of a chip to create: a built-in beacon, or any other radio.
#[derive(Debug)]
pub enum ChipCreateKind {
    BleBeacon(BeaconCreate),
    /// A radio that only a virtual device brings.
    Other,
}

/// A chip of a device to create.
#[derive(Debug)]
pub struct ChipCreateModel {
    pub name: String,
    pub kind: ChipKind,
    /// `None` where the request names no radio.
    pub chip: Option<ChipCreateKind>,
}

/// A device to create.
#[derive(Debug)]
pub struct DeviceCreateModel {
    pub name: String,
    pub chips: Vec<ChipCreateModel>,
}

/// The first chip that is not a built-in beacon, if any.
pub open spec fn first_not_builtin(cs: Seq<ChipCreateModel>) -> int
    decreases cs.len(),
{
    if cs.len() == 0 {
        -1
    } else {
        let f = first_not_builtin(cs.drop_last());
        if f >= 0 {
            f
        } else if cs.last().chip matches Some(ChipCreateKind::BleBeacon(_)) {
            -1
        } else {
            cs.len() - 1
        }
    }
}

/// Whether the daemon may create a device, and else why not: a named
/// device whose name is already a device's identifier exists already; a
/// device needs a chip; and only built-in beacons can be created, the
/// first other chip being named in the error.
pub open spec fn create_device_check(d: DeviceCreateModel, guids: Seq<Seq<char>>) -> Result<(), Seq<char>> {
    if d.name@.len() != 0 && guids.contains(d.name@) {
        Err("failed to create device: device already exists"@)
    } else if d.chips@.len() == 0 {
        Err("failed to create device: device must contain at least 1 chip"@)
    } else if first_not_builtin(d.chips@) >= 0 {
        let c = d.chips@[first_not_builtin(d.chips@)];
        if c.chip is Some {
            Err("failed to create device: chip "@ + c.name@ + " was not a built-in"@)
        } else {
            Err("failed to create device: chip "@ + c.name@ + " was missing a radio"@)
        }
    } else {
        Ok(())
    }
}

proof fn lemma_first_not_builtin(cs: Seq<ChipCreateModel>, m: int)
    requires
        0 <= m <= cs.len(),
        forall|k: int| 0 <= k < m ==> (#[trigger] cs[k]).chip matches Some(ChipCreateKind::BleBeacon(_)),
    ensures
        m == cs.len() ==> first_not_builtin(cs) == -1,
        m < cs.len() && !(cs[m].chip matches Some(ChipCreateKind::BleBeacon(_))) ==> first_not_builtin(cs) == m,
        -1 <= first_not_builtin(cs) < cs.len(),
    decreases cs.len(),
{
    if cs.len() > 0 {
        if m == cs.len() {
            lemma_first_not_builtin(cs.drop_last(), m - 1);
        } else {
            lemma_first_not_builtin(cs.drop_last(), m);
        }
    }
}

/// Checks whether the daemon may create a device, its devices' identifiers
/// given (see `create_device_check`).
pub fn check_create_device(device: &DeviceCreateModel, known_guids: &Vec<String>) -> (r: Result<(), String>)
    ensures
        match create_device_check(*device, known_guids.deep_view()) {
            Ok(()) => r is Ok,
            Err(m) => r matches Err(e) && e@ == m,
        },
{
    let ghost guids = known_guids.deep_view();
    if device.name.unicode_len() != 0 {
        let mut i: usize = 0;
        while i < known_guids.len()
            invariant
                i <= known_guids@.len(),
                guids == known_guids.deep_view(),
                device.name@.len() != 0,
                forall|k: int| 0 <= k < i ==> guids[k] != device.name@,
            decreases known_guids@.len() - i,
        {
            if str_eq(known_guids[i].as_str(), device.name.as_str()) {
                assert(guids[i as int] == device.name@);
                assert(guids.contains(device.name@));
                return Err(text_copy("failed to create device: device already exists"));
            }
            i = i + 1;
        }
        assert(!guids.contains(device.name@));
    }
    if device.chips.len() == 0 {
        return Err(text_copy("failed to create device: device must contain at least 1 chip"));
    }
    let mut k: usize = 0;
    while k < device.chips.len()
        invariant
            k <= device.chips@.len(),
            device.chips@.len() > 0,
            guids == known_guids.deep_view(),
            !(device.name@.len() != 0 && guids.contains(device.name@)),
            forall|j: int| 0 <= j < k ==> (#[trigger] device.chips@[j]).chip matches Some(ChipCreateKind::BleBeacon(_)),
        decreases device.chips@.len() - k,
    {
        let c = &device.chips[k];
        match &c.chip {
            Some(ChipCreateKind::BleBeacon(_)) => {},
            Some(ChipCreateKind::Other) => {
                proof {
                    lemma_first_not_builtin(device.chips@, k as int);
                }
                let mut e = String::new();
                push_str(&mut e, "failed to create device: chip ");
                push_str(&mut e, c.name.as_str());
                push_str(&mut e, " was not a built-in");
                return Err(e);
            },
            None => {
                proof {
                    lemma_first_not_builtin(device.chips@, k as int);
                }
                let mut e = String::new();
                push_str(&mut e, "failed to create device: chip ");
                push_str(&mut e, c.name.as_str());
                push_str(&mut e, " was missing a radio");
                return Err(e);
            },
        }
        k = k + 1;
    }
    proof {
        lemma_first_not_builtin(device.chips@, k as int);
    }
    Ok(())
}

/// The lowercase hexadecimal digits of `n`.
pub open spec fn hex_text(n: nat) -> Seq<char>
    decreases n,
{
    if n < 16 {
        seq![hex_char(n as u8)]
    } else {
        hex_text(n / 16).push(hex_char((n % 16) as u8))
    }
}

/// `hex_text(n)` with zeros in front to at least two digits.
pub open spec fn hex2(n: nat) -> Seq<char> {
    if n < 16 {
        seq!['0'] + hex_text(n)
    } else {
        hex_text(n)
    }
}

/// Appends the lowercase hexadecimal digits of `n`.
fn push_hex(s: &mut String, n: u32)
    ensures
        final(s)@ == old(s)@ + hex_text(n as nat),
    decreases n,
{
    if n >= 16 {
        push_hex(s, n / 16);
    }
    let d = (n % 16) as u8;
    let c = if d < 10 { ('0' as u8 + d) as char } else { ('a' as u8 + d - 10) as char };
    s.push(c);
    proof {
        if n >= 16 {
            assert(hex_text(n as nat) == hex_text((n / 16) as nat).push(hex_char((n % 16) as u8)));
        }
    }
}

/// The device with one test beacon that the daemon creates at start, for
/// index `idx`: named `device-` and the index, its chip `beacon-` and the
/// index, at address `be:ac:01:be:ef:` and the index in two hexadecimal
/// digits, advertising every 1280 ms, scannable, with its name, its
/// transmit power and the manufacturer data 1, 2, 3, 4.
pub fn test_beacon_create(idx: u32) -> (r: DeviceCreateModel)
    ensures
        r.name@ == "device-"@ + decimal(idx as nat),
        r.chips@.len() == 1,
        r.chips@[0].name@ == "beacon-"@ + decimal(idx as nat),
        r.chips@[0].kind == ChipKind::BluetoothBeacon,
        r.chips@[0].chip matches Some(ChipCreateKind::BleBeacon(b)) && {
            &&& b.address@ == "be:ac:01:be:ef:"@ + hex2(idx as nat)
            &&& b.interval_ms == Some(1280u64)
            &&& b.scannable
            &&& b.adv_data.include_device_name
            &&& b.adv_data.include_tx_power_level
            &&& b.adv_data.manufacturer_data@ == seq![1u8, 2, 3, 4]
        },
{
    let mut address = String::new();
    push_str(&mut address, "be:ac:01:be:ef:");
    if idx < 16 {
        push_str(&mut address, "0");
    }
    push_hex(&mut address, idx);
    proof {
        reveal_strlit("0");
        reveal_strlit("be:ac:01:be:ef:");
    }
    assert(address@ =~= "be:ac:01:be:ef:"@ + hex2(idx as nat));
    let mut chip_name = String::new();
    push_str(&mut chip_name, "beacon-");
    proof {
        lemma_decimal_nonempty(idx as nat);
    }
    push_decimal(&mut chip_name, idx as u64, 0);
    assert(chip_name@ =~= "beacon-"@ + decimal(idx as nat));
    let mut name = String::new();
    push_str(&mut name, "device-");
    push_decimal(&mut name, idx as u64, 0);
    assert(name@ =~= "device-"@ + decimal(idx as nat));
    let chip = ChipCreateModel {
        name: chip_name,
        kind: ChipKind::BluetoothBeacon,
        chip: Some(
            ChipCreateKind::BleBeacon(
                BeaconCreate {
                    address,
                    interval_ms: Some(1280),
                    scannable: true,
                    adv_data: AdvertiseData {
                        include_device_name: true,
                        include_tx_power_level: true,
                        manufacturer_data: vec![1u8, 2, 3, 4],
                    },
                },
            ),
        ),
    };
    let r = DeviceCreateModel { name, chips: vec![chip] };
    assert(r.chips@[0].chip matches Some(ChipCreateKind::BleBeacon(b)) && b.adv_data.manufacturer_data@ =~= seq![1u8, 2, 3, 4]);
    r
}

} // verus!
