//! The file descriptor transport: the startup description of the devices
//! whose chips talk over file descriptors, the chips it asks for, and the
//! framing of the packets that go back to a device.

use crate::chip::CreateParams;
use crate::response::ChipKind;
use crate::text::{decimal, lemma_decimal_nonempty, push_decimal, push_str};
use vstd::prelude::*;

verus! {

/// The packet type that carries no H4 indicator.
pub const HCI_PACKET_UNSPECIFIED: u8 = 0;

/// The bytes written for a response: the packet type first, unless it is
/// unspecified, then the packet.
pub open spec fn response_frame(packet_type: u8, packet: Seq<u8>) -> Seq<u8> {
    if packet_type != HCI_PACKET_UNSPECIFIED {
        seq![packet_type] + packet
    } else {
        packet
    }
}

/// The bytes to write for a response packet (see `response_frame`).
pub fn response_bytes(packet_type: u8, packet: &[u8]) -> (r: Vec<u8>)
    ensures
        r@ == response_frame(packet_type, packet@),
{
    let mut buffer: Vec<u8> = Vec::new();
    if packet_type != HCI_PACKET_UNSPECIFIED {
        buffer.push(packet_type);
    }
    crate::wire::push_bytes(&mut buffer, packet);
    assert(buffer@ =~= response_frame(packet_type, packet@));
    buffer
}


/// The kind of a chip in the startup description.
#[derive(Clone, Copy, Debug, PartialEq, Eq, Structural)]
pub enum StartupChipKind {
    Unknown,
    Bluetooth,
    Wifi,
    Uwb,
}

/// A chip in the startup description, with the descriptors that carry its
/// packets.
#[derive(Debug)]
pub struct StartupChip {
    pub kind: StartupChipKind,
    pub id: Option<String>,
    pub manufacturer: Option<String>,
    pub product_name: Option<String>,
    /// The descriptor the daemon writes to.
    pub fd_in: u32,
    /// The descriptor the daemon reads from.
    pub fd_out: u32,
    pub loopback: Option<bool>,
    pub address: Option<String>,
}

/// A device in the startup description.
#[derive(Debug)]
pub struct StartupDevice {
    pub name: String,
    pub chips: Vec<StartupChip>,
}

/// The startup description.
#[derive(Debug)]
pub struct StartupInfo {
    pub devices: Vec<StartupDevice>,
}

/// The emulated chip that serves a chip of the startup description.
#[derive(Debug)]
pub enum WirelessParams {
    Bluetooth { address: String },
    Wifi,
    Uwb { address: String },
}

/// A chip to add to the registry, and the descriptors that it uses.
#[derive(Debug)]
pub struct FdChip {
    /// The identifier of the device: `fd-device-` and its index.
    pub device_guid: String,
    pub device_name: String,
    pub create_params: CreateParams,
    pub wireless: WirelessParams,
    pub fd_in: u32,
    pub fd_out: u32,
    pub kind: StartupChipKind,
}

/// The device index and the chip index of every chip, device by device.
pub open spec fn chip_positions(devices: Seq<StartupDevice>) -> Seq<(int, int)>
    decreases devices.len(),
{
    if devices.len() == 0 {
        Seq::empty()
    } else {
        let n = devices.len() - 1;
        chip_positions(devices.drop_last()) + Seq::new(
            devices.last().chips@.len(),
            |j: int| (n, j),
        )
    }
}

/// The chip at a position.
pub open spec fn chip_at(devices: Seq<StartupDevice>, p: (int, int)) -> StartupChip {
    devices[p.0].chips@[p.1]
}

/// An optional text, empty where there is none.
pub open spec fn text_or_empty(t: Option<String>) -> Seq<char> {
    match t {
        Some(s) => s@,
        None => Seq::empty(),
    }
}

/// The registry's kind for a startup kind; only the unknown kind has none.
pub open spec fn registry_kind(kind: StartupChipKind) -> ChipKind {
    match kind {
        StartupChipKind::Bluetooth => ChipKind::Bluetooth,
        StartupChipKind::Wifi => ChipKind::Wifi,
        StartupChipKind::Uwb => ChipKind::Uwb,
        StartupChipKind::Unknown => ChipKind::Unspecified,
    }
}

/// The chip to add for the chip `c` of the device `d` at index `i`: the
/// registry's kind, the address, manufacturer and product name (empty where
/// absent), the chip's id as its name, the emulated chip of its kind, and
/// the descriptors.
pub open spec fn fd_chip_for(f: FdChip, i: int, d: StartupDevice, c: StartupChip) -> bool {
    &&& f.device_guid@ == "fd-device-"@ + decimal(i as nat)
    &&& f.device_name@ == d.name@
    &&& f.create_params.kind == registry_kind(c.kind)
    &&& f.create_params.address@ == text_or_empty(c.address)
    &&& f.create_params.name matches Some(n) && n@ == text_or_empty(c.id)
    &&& f.create_params.manufacturer@ == text_or_empty(c.manufacturer)
    &&& f.create_params.product_name@ == text_or_empty(c.product_name)
    &&& match c.kind {
        StartupChipKind::Bluetooth => f.wireless matches WirelessParams::Bluetooth { address }
            && address@ == text_or_empty(c.address),
        StartupChipKind::Wifi => f.wireless is Wifi,
        StartupChipKind::Uwb => f.wireless matches WirelessParams::Uwb { address } && address@
            == text_or_empty(c.address),
        StartupChipKind::Unknown => false,
    }
    &&& f.fd_in == c.fd_in
    &&& f.fd_out == c.fd_out
    &&& f.kind == c.kind
}

/// A copy of an optional text, empty where there is none.
fn copy_or_empty(t: &Option<String>) -> (r: String)
    ensures
        r@ == text_or_empty(*t),
{
    match t {
        Some(s) => s.clone(),
        None => String::new(),
    }
}

/// The chip to add for chip `c` of device `d` at index `i`; `None` for a
/// chip of unknown kind.
fn fd_chip(i: usize, d: &StartupDevice, c: &StartupChip) -> (r: Option<FdChip>)
    ensures
        match r {
            Some(f) => fd_chip_for(f, i as int, *d, *c),
            None => c.kind is Unknown,
        },
{
    let (kind, wireless) = match c.kind {
        StartupChipKind::Bluetooth => (
            ChipKind::Bluetooth,
            WirelessParams::Bluetooth { address: copy_or_empty(&c.address) },
        ),
        StartupChipKind::Wifi => (ChipKind::Wifi, WirelessParams::Wifi),
        StartupChipKind::Uwb => (
            ChipKind::Uwb,
            WirelessParams::Uwb { address: copy_or_empty(&c.address) },
        ),
        StartupChipKind::Unknown => {
            return None;
        },
    };
    let mut guid = String::new();
    push_str(&mut guid, "fd-device-");
    proof {
        lemma_decimal_nonempty(i as nat);
    }
    push_decimal(&mut guid, i as u64, 0);
    assert(guid@ =~= "fd-device-"@ + decimal(i as nat));
    Some(
        FdChip {
            device_guid: guid,
            device_name: d.name.clone(),
            create_params: CreateParams {
                kind,
                address: copy_or_empty(&c.address),
                name: Some(copy_or_empty(&c.id)),
                manufacturer: copy_or_empty(&c.manufacturer),
                product_name: copy_or_empty(&c.product_name),
            },
            wireless,
            fd_in: c.fd_in,
            fd_out: c.fd_out,
            kind: c.kind,
        },
    )
}

/// The chips to add for a startup description, device by device and chip
/// by chip, and whether all were added: the adding stops before the first
/// chip of unknown kind.
pub fn fd_chips(info: &StartupInfo) -> (r: (Vec<FdChip>, bool))
    ensures
        ({
            let devices = info.devices@;
            let ps = chip_positions(devices);
            let n = r.0@.len();
            &&& n <= ps.len()
            &&& forall|k: int|
                0 <= k < n ==> {
                    let p = #[trigger] ps[k];
                    &&& 0 <= p.0 < devices.len()
                    &&& 0 <= p.1 < devices[p.0].chips@.len()
                    &&& fd_chip_for(r.0@[k], p.0, devices[p.0], chip_at(devices, p))
                }
            &&& r.1 ==> n == ps.len()
            &&& !r.1 ==> n < ps.len() && chip_at(devices, ps[n as int]).kind is Unknown
        }),
{
    let mut out: Vec<FdChip> = Vec::new();
    let mut i: usize = 0;
    let ghost devices = info.devices@;
    while i < info.devices.len()
        invariant
            devices == info.devices@,
            i <= devices.len(),
            out@.len() == chip_positions(devices.take(i as int)).len(),
            forall|k: int|
                0 <= k < out@.len() ==> {
                    let p = #[trigger] chip_positions(devices.take(i as int))[k];
                    &&& 0 <= p.0 < i
                    &&& 0 <= p.1 < devices[p.0].chips@.len()
                    &&& fd_chip_for(out@[k], p.0, devices[p.0], chip_at(devices, p))
                },
        decreases devices.len() - i,
    {
        let d = &info.devices[i];
        let ghost before = chip_positions(devices.take(i as int));
        let ghost row = Seq::new(d.chips@.len(), |j: int| (i as int, j));
        assert(devices.take(i + 1).drop_last() =~= devices.take(i as int));
        assert(chip_positions(devices.take(i + 1)) == before + row);
        let mut j: usize = 0;
        while j < d.chips.len()
            invariant
                devices == info.devices@,
                i < devices.len(),
                *d == devices[i as int],
                before == chip_positions(devices.take(i as int)),
                row == Seq::new(d.chips@.len(), |jj: int| (i as int, jj)),
                before + row == chip_positions(devices.take(i + 1)),
                j <= d.chips@.len(),
                out@.len() == before.len() + j,
                forall|k: int|
                    0 <= k < out@.len() ==> {
                        let p = #[trigger] (before + row)[k];
                        &&& 0 <= p.0 <= i
                        &&& 0 <= p.1 < devices[p.0].chips@.len()
                        &&& fd_chip_for(out@[k], p.0, devices[p.0], chip_at(devices, p))
                    },
            decreases d.chips@.len() - j,
        {
            match fd_chip(i, d, &d.chips[j]) {
                Some(f) => {
                    out.push(f);
                    proof {
                        assert((before + row)[out@.len() - 1] == (i as int, j as int));
                    }
                },
                None => {
                    proof {
                        lemma_positions_prefix(devices, i as int + 1);
                        let all = chip_positions(devices);
                        assert((before + row)[out@.len() as int] == (i as int, j as int));
                        assert forall|k: int| 0 <= k < out@.len() implies #[trigger] all[k] == (
                            before + row)[k] by {
                            assert(all.take((before + row).len() as int)[k] == all[k]);
                        }
                        assert(all[out@.len() as int] == (before + row)[out@.len() as int]) by {
                            assert(all.take((before + row).len() as int)[out@.len() as int]
                                == all[out@.len() as int]);
                        }
                    }
                    return (out, false);
                },
            }
            j = j + 1;
        }
        i = i + 1;
    }
    assert(devices.take(i as int) =~= devices);
    (out, true)
}

/// The positions of the first devices are the first positions.
proof fn lemma_positions_prefix(devices: Seq<StartupDevice>, m: int)
    requires
        0 <= m <= devices.len(),
    ensures
        chip_positions(devices).len() >= chip_positions(devices.take(m)).len(),
        chip_positions(devices).take(chip_positions(devices.take(m)).len() as int)
            == chip_positions(devices.take(m)),
    decreases devices.len(),
{
    if m == devices.len() {
        assert(devices.take(m) =~= devices);
        assert(chip_positions(devices).take(chip_positions(devices).len() as int) =~= chip_positions(
            devices,
        ));
    } else {
        lemma_positions_prefix(devices.drop_last(), m);
        assert(devices.drop_last().take(m) =~= devices.take(m));
        let a = chip_positions(devices.drop_last());
        let b = chip_positions(devices.take(m));
        assert((a + Seq::new(devices.last().chips@.len(), |j: int| (devices.len() - 1, j))).take(
            b.len() as int,
        ) =~= a.take(b.len() as int));
    }
}

} // verus!
