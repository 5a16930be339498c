//! The list of devices as the command line prints it: a line per device,
//! with its chips' radios, in full when verbose and otherwise only what is
//! off or capturing. A device's position comes as text, its coordinates
//! already written with two decimals.

use crate::display::{
    pad, pad_left, push_count, push_padded, push_spaces, spaces, state_word, ChipRadio, State,
};
use crate::text::{push_str, signed_decimal};
use vstd::prelude::*;

verus! {

/// The radios of a chip of a listed device.
#[derive(Debug)]
pub enum ChipRadios {
    Bt { low_energy: Option<ChipRadio>, classic: Option<ChipRadio> },
    Wifi(ChipRadio),
    /// A chip of another kind.
    Other,
}

/// A chip of a listed device, with its capture state.
#[derive(Debug)]
pub struct DeviceChip {
    pub capture: State,
    pub radios: ChipRadios,
}

/// A listed device.
#[derive(Debug)]
pub struct DeviceInfo {
    pub name: String,
    /// The coordinates, written `x, y, z` with two decimals.
    pub position: String,
    /// Whether all three coordinates are zero.
    pub at_origin: bool,
    pub chips: Vec<DeviceChip>,
}

/// The word for a capture state.
pub open spec fn capture_word(st: State) -> Seq<char> {
    match st {
        State::On => "on"@,
        State::Off => "off"@,
        State::Unknown => "unknown"@,
    }
}

/// A radio's row in the verbose list: its label, state, counts and the
/// chip's capture state.
pub open spec fn radio_row(label: Seq<char>, r: ChipRadio, capture: State) -> Seq<char> {
    spaces(2) + pad(label, 9) + pad(state_word(r.state), 5) + "| rx_count: "@ + pad_left(
        signed_decimal(r.rx_count as int),
        9,
    ) + " | tx_count: "@ + pad_left(signed_decimal(r.tx_count as int), 9) + " | capture: "@
        + capture_word(capture) + "\n"@
}

/// A radio in the short list: shown only when it is off.
pub open spec fn radio_off(label: Seq<char>, r: ChipRadio) -> Seq<char> {
    if r.state == State::Off {
        spaces(2) + pad(label, 9) + pad("down"@, 5)
    } else {
        Seq::empty()
    }
}

/// A chip's rows in the verbose list.
pub open spec fn chip_rows(c: DeviceChip) -> Seq<char> {
    match c.radios {
        ChipRadios::Bt { low_energy, classic } => (match low_energy {
            Some(r) => radio_row("ble:"@, r, c.capture),
            None => Seq::empty(),
        }) + (match classic {
            Some(r) => radio_row("classic:"@, r, c.capture),
            None => Seq::empty(),
        }),
        ChipRadios::Wifi(r) => radio_row("wifi:"@, r, c.capture),
        ChipRadios::Other => "  Unknown chip: down  \n"@,
    }
}

/// A chip in the short list: the radios that are off, then whether it
/// captures.
pub open spec fn chip_short(c: DeviceChip) -> Seq<char> {
    (match c.radios {
        ChipRadios::Bt { low_energy, classic } => (match low_energy {
            Some(r) => radio_off("ble:"@, r),
            None => Seq::empty(),
        }) + (match classic {
            Some(r) => radio_off("classic:"@, r),
            None => Seq::empty(),
        }),
        ChipRadios::Wifi(r) => radio_off("wifi:"@, r),
        ChipRadios::Other => Seq::empty(),
    }) + if c.capture == State::On {
        "  capture: on"@
    } else {
        Seq::empty()
    }
}

/// The chips of a device, one after the other.
pub open spec fn chips_text(cs: Seq<DeviceChip>, verbose: bool) -> Seq<char>
    decreases cs.len(),
{
    if cs.len() == 0 {
        Seq::empty()
    } else {
        chips_text(cs.drop_last(), verbose) + if verbose {
            chip_rows(cs.last())
        } else {
            chip_short(cs.last())
        }
    }
}

/// A device: verbose, its name padded to 16 characters and its position on a
/// line, then a row per radio; short, its name, its position where it is
/// not at the origin and its chips on one line.
pub open spec fn device_text(d: DeviceInfo, verbose: bool) -> Seq<char> {
    if verbose {
        pad(d.name@, 16) + "  position: "@ + d.position@ + "\n"@ + chips_text(d.chips@, true)
    } else {
        pad(d.name@, 16) + "  "@ + (if d.at_origin {
            Seq::empty()
        } else {
            "position: "@ + d.position@
        }) + chips_text(d.chips@, false) + "\n"@
    }
}

/// The devices, one after the other.
pub open spec fn devices_text(ds: Seq<DeviceInfo>, verbose: bool) -> Seq<char>
    decreases ds.len(),
{
    if ds.len() == 0 {
        Seq::empty()
    } else {
        devices_text(ds.drop_last(), verbose) + device_text(ds.last(), verbose)
    }
}

/// The printed device list: verbose, under a heading that says whether
/// there are devices.
pub open spec fn device_response(ds: Seq<DeviceInfo>, verbose: bool) -> Seq<char> {
    if verbose {
        (if ds.len() == 0 {
            "No attached devices found.\n"@
        } else {
            "List of attached devices:\n"@
        }) + devices_text(ds, true)
    } else {
        devices_text(ds, false)
    }
}

/// Appends a radio's row of the verbose list.
fn push_radio_row(s: &mut String, label: &str, r: &ChipRadio, capture: State)
    ensures
        final(s)@ == old(s)@ + radio_row(label@, *r, capture),
{
    let ghost start = s@;
    push_spaces(s, 2);
    push_padded(s, label, 9);
    let word = match r.state {
        State::On => "up",
        State::Off => "down",
        State::Unknown => "unknown",
    };
    push_padded(s, word, 5);
    push_str(s, "| rx_count: ");
    push_count(s, r.rx_count);
    push_str(s, " | tx_count: ");
    push_count(s, r.tx_count);
    push_str(s, " | capture: ");
    match capture {
        State::On => push_str(s, "on"),
        State::Off => push_str(s, "off"),
        State::Unknown => push_str(s, "unknown"),
    }
    push_str(s, "\n");
    proof {
        reveal_strlit("up");
        reveal_strlit("down");
        reveal_strlit("unknown");
        reveal_strlit("on");
        reveal_strlit("off");
    }
    assert(s@ =~= start + radio_row(label@, *r, capture));
}

/// Appends a radio of the short list, where it is off.
fn push_radio_off(s: &mut String, label: &str, r: &ChipRadio)
    ensures
        final(s)@ == old(s)@ + radio_off(label@, *r),
{
    let ghost start = s@;
    if r.state == State::Off {
        push_spaces(s, 2);
        push_padded(s, label, 9);
        push_padded(s, "down", 5);
    }
    assert(s@ =~= start + radio_off(label@, *r));
}

/// Appends a chip's rows of the verbose list.
fn push_chip_rows(s: &mut String, c: &DeviceChip)
    ensures
        final(s)@ == old(s)@ + chip_rows(*c),
{
    let ghost start = s@;
    match &c.radios {
        ChipRadios::Bt { low_energy, classic } => {
            match low_energy {
                Some(r) => push_radio_row(s, "ble:", r, c.capture),
                None => {},
            }
            let ghost a = s@;
            match classic {
                Some(r) => push_radio_row(s, "classic:", r, c.capture),
                None => {},
            }
        },
        ChipRadios::Wifi(r) => push_radio_row(s, "wifi:", r, c.capture),
        ChipRadios::Other => push_str(s, "  Unknown chip: down  \n"),
    }
    assert(s@ =~= start + chip_rows(*c));
}

/// Appends a chip of the short list.
fn push_chip_short(s: &mut String, c: &DeviceChip)
    ensures
        final(s)@ == old(s)@ + chip_short(*c),
{
    let ghost start = s@;
    match &c.radios {
        ChipRadios::Bt { low_energy, classic } => {
            match low_energy {
                Some(r) => push_radio_off(s, "ble:", r),
                None => {},
            }
            let ghost a = s@;
            match classic {
                Some(r) => push_radio_off(s, "classic:", r),
                None => {},
            }
        },
        ChipRadios::Wifi(r) => push_radio_off(s, "wifi:", r),
        ChipRadios::Other => {},
    }
    let ghost m = s@;
    if c.capture == State::On {
        push_str(s, "  capture: on");
    }
    assert(s@ =~= start + chip_short(*c));
}

/// Appends a chip of the list.
fn push_chip(s: &mut String, c: &DeviceChip, verbose: bool)
    ensures
        final(s)@ == old(s)@ + (if verbose {
            chip_rows(*c)
        } else {
            chip_short(*c)
        }),
{
    if verbose {
        push_chip_rows(s, c);
    } else {
        push_chip_short(s, c);
    }
}

/// Appends a device of the list.
fn push_device(s: &mut String, d: &DeviceInfo, verbose: bool)
    ensures
        final(s)@ == old(s)@ + device_text(*d, verbose),
{
    let ghost start = s@;
    push_padded(s, d.name.as_str(), 16);
    if verbose {
        push_str(s, "  position: ");
        push_str(s, d.position.as_str());
        push_str(s, "\n");
    } else {
        push_str(s, "  ");
        if !d.at_origin {
            push_str(s, "position: ");
            push_str(s, d.position.as_str());
        }
    }
    let ghost head = s@;
    let mut i: usize = 0;
    while i < d.chips.len()
        invariant
            i <= d.chips@.len(),
            s@ == head + chips_text(d.chips@.take(i as int), verbose),
        decreases d.chips@.len() - i,
    {
        push_chip(s, &d.chips[i], verbose);
        assert(d.chips@.take(i + 1).drop_last() =~= d.chips@.take(i as int));
        i = i + 1;
    }
    assert(d.chips@.take(i as int) =~= d.chips@);
    if !verbose {
        push_str(s, "\n");
    }
    assert(s@ =~= start + device_text(*d, verbose));
}

/// The device list as the command line prints it (see `device_response`).
pub fn device_response_text(devices: &Vec<DeviceInfo>, verbose: bool) -> (r: String)
    ensures
        r@ == device_response(devices@, verbose),
{
    let mut s = String::new();
    if verbose {
        if devices.len() == 0 {
            push_str(&mut s, "No attached devices found.\n");
        } else {
            push_str(&mut s, "List of attached devices:\n");
        }
    }
    let ghost head = s@;
    let mut i: usize = 0;
    while i < devices.len()
        invariant
            i <= devices@.len(),
            s@ == head + devices_text(devices@.take(i as int), verbose),
        decreases devices@.len() - i,
    {
        push_device(&mut s, &devices[i], verbose);
        assert(devices@.take(i + 1).drop_last() =~= devices@.take(i as int));
        i = i + 1;
    }
    assert(devices@.take(i as int) =~= devices@);
    assert(s@ =~= device_response(devices@, verbose));
    s
}

} // verus!
