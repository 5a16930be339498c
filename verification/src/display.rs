//! Indented display of model values for the command line: the state of a
//! radio, a radio, a chip and a beacon, as the command line prints them.

use crate::text::{decimal, push_decimal, push_signed, push_str, signed_decimal};
use vstd::prelude::*;

verus! {

/// Spaces per indentation level.
pub const INDENT_WIDTH: usize = 2;

/// A value to display, with the verbosity and the indentation in spaces.
/// Displayed values do not end in a newline.
pub struct Displayer<T> {
    pub value: T,
    pub verbose: bool,
    pub indent: usize,
}

impl<T> Displayer<T> {
    /// A displayer of `value` with no indentation.
    pub fn new(value: T, verbose: bool) -> (r: Self)
        ensures
            r.value == value,
            r.verbose == verbose,
            r.indent == 0,
    {
        Displayer { value, verbose, indent: 0 }
    }

    /// Indents by `indent` levels; returns the displayer.
    pub fn indent(&mut self, indent: usize) -> (r: &Self)
        requires
            indent * INDENT_WIDTH <= usize::MAX,
        ensures
            final(self).indent == indent * INDENT_WIDTH,
            final(self).value == old(self).value,
            final(self).verbose == old(self).verbose,
            *r == *final(self),
    {
        self.indent = indent * INDENT_WIDTH;
        self
    }
}


/// The state of a radio.
#[derive(Clone, Copy, Debug, PartialEq, Eq, Structural)]
pub enum State {
    Unknown,
    On,
    Off,
}

/// A radio of a chip: its state and packet counts.
#[derive(Clone, Copy, Debug, PartialEq, Eq, Structural)]
pub struct ChipRadio {
    pub state: State,
    pub rx_count: i32,
    pub tx_count: i32,
}

/// How a beacon advertises; zero means unset.
#[derive(Clone, Copy, Debug, PartialEq, Eq, Structural)]
pub struct AdvertiseSettings {
    pub tx_power_level: i32,
    /// In milliseconds.
    pub interval: u64,
}

/// What a beacon's advertising packet holds; false and empty mean unset.
#[derive(Debug)]
pub struct AdvertiseData {
    pub include_device_name: bool,
    pub include_tx_power_level: bool,
    pub manufacturer_data: Vec<u8>,
}

/// A Bluetooth beacon chip.
#[derive(Debug)]
pub struct BluetoothBeacon {
    pub address: String,
    pub settings: Option<AdvertiseSettings>,
    pub adv_data: Option<AdvertiseData>,
    /// The low energy radio that advertises.
    pub low_energy: Option<ChipRadio>,
}

/// What kind of chip a chip is, with its radios.
#[derive(Debug)]
pub enum ChipData {
    BleBeacon(BluetoothBeacon),
    Bt { low_energy: Option<ChipRadio>, classic: Option<ChipRadio> },
    Wifi(ChipRadio),
    Uwb(ChipRadio),
}

/// A chip of a device, as the frontend describes it.
#[derive(Debug)]
pub struct ChipModel {
    pub name: String,
    /// `None` for a chip of an unknown kind.
    pub chip: Option<ChipData>,
}

/// `n` spaces.
pub open spec fn spaces(n: nat) -> Seq<char> {
    Seq::new(n, |i: int| ' ')
}

/// `s` padded on the right with spaces to `w` characters.
pub open spec fn pad(s: Seq<char>, w: nat) -> Seq<char> {
    if s.len() >= w {
        s
    } else {
        s + spaces((w - s.len()) as nat)
    }
}

/// `s` padded on the left with spaces to `w` characters.
pub open spec fn pad_left(s: Seq<char>, w: nat) -> Seq<char> {
    if s.len() >= w {
        s
    } else {
        spaces((w - s.len()) as nat) + s
    }
}

/// The word for a state.
pub open spec fn state_word(st: State) -> Seq<char> {
    match st {
        State::On => "up"@,
        State::Off => "down"@,
        State::Unknown => "unknown"@,
    }
}

/// A state: the indentation, then its word padded to 9 characters.
pub open spec fn state_display(st: State, indent: nat) -> Seq<char> {
    spaces(indent) + pad(state_word(st), 9)
}

/// A radio: its state and, when verbose, its counts of received and sent
/// packets, each right-aligned on 9 characters.
pub open spec fn radio_display(r: ChipRadio, verbose: bool, indent: nat) -> Seq<char> {
    spaces(indent) + state_display(r.state, 0) + if verbose {
        "| rx_count: "@ + pad_left(signed_decimal(r.rx_count as int), 9) + " | tx_count: "@
            + pad_left(signed_decimal(r.tx_count as int), 9)
    } else {
        Seq::empty()
    }
}

/// A field line of beacon settings or data: the indentation, the label
/// padded to 25 characters, `: ` and the value.
pub open spec fn field_line(indent: nat, label: Seq<char>, value: Seq<char>) -> Seq<char> {
    spaces(indent) + pad(label, 25) + ": "@ + value
}

/// Two blocks of lines, on lines that a newline separates; an empty block
/// adds no line.
pub open spec fn join_lines(a: Seq<char>, b: Seq<char>) -> Seq<char> {
    if a.len() == 0 {
        b
    } else if b.len() == 0 {
        a
    } else {
        a + "\n"@ + b
    }
}

/// The settings that are set, one line each.
pub open spec fn settings_display(s: AdvertiseSettings, indent: nat) -> Seq<char> {
    join_lines(
        if s.tx_power_level != 0 {
            field_line(indent, "tx power level"@, signed_decimal(s.tx_power_level as int) + " dBm"@)
        } else {
            Seq::empty()
        },
        if s.interval != 0 {
            field_line(indent, "interval"@, decimal(s.interval as nat) + " ms"@)
        } else {
            Seq::empty()
        },
    )
}

/// The parts of the packet data that are set, one line each.
pub open spec fn data_display(d: AdvertiseData, indent: nat) -> Seq<char> {
    join_lines(
        join_lines(
            if d.include_device_name {
                field_line(indent, "include device name"@, "true"@)
            } else {
                Seq::empty()
            },
            if d.include_tx_power_level {
                field_line(indent, "include tx power level"@, "true"@)
            } else {
                Seq::empty()
            },
        ),
        if d.manufacturer_data@.len() != 0 {
            field_line(indent, "manufacturer data bytes"@, decimal(d.manufacturer_data@.len()))
        } else {
            Seq::empty()
        },
    )
}

/// The indentation of a part one level in from `indent`.
pub open spec fn inner(indent: nat) -> nat {
    (indent + 1) * INDENT_WIDTH as nat
}

/// A beacon: its address padded to 16 characters, then its settings and
/// its packet data where they are set, one level in.
pub open spec fn beacon_display(b: BluetoothBeacon, indent: nat) -> Seq<char> {
    spaces(indent) + "address: "@ + pad(b.address@, 16) + (match b.settings {
        Some(s) => if s.tx_power_level != 0 || s.interval != 0 {
            "\n"@ + spaces(indent) + "advertise settings:\n"@ + settings_display(s, inner(indent))
        } else {
            Seq::empty()
        },
        None => Seq::empty(),
    }) + (match b.adv_data {
        Some(d) => if d.include_device_name || d.include_tx_power_level
            || d.manufacturer_data@.len() != 0 {
            "\n"@ + spaces(indent) + "advertise packet data:\n"@ + data_display(d, inner(indent))
        } else {
            Seq::empty()
        },
        None => Seq::empty(),
    })
}

/// A radio line of a chip, on a line of its own: shown when verbose or when
/// the radio is down.
pub open spec fn radio_line(label: Seq<char>, r: ChipRadio, verbose: bool, indent: nat) -> Seq<char> {
    if verbose || r.state == State::Off {
        "\n"@ + spaces(indent) + pad(label, 9) + radio_display(r, verbose, 0)
    } else {
        Seq::empty()
    }
}

/// A radio with no state and no counts.
pub open spec fn default_radio() -> ChipRadio {
    ChipRadio { state: State::Unknown, rx_count: 0, tx_count: 0 }
}

/// A chip: each of its radios that is down, or all of them when verbose,
/// on a line of its own; a beacon shows its name and radio, and, when
/// verbose, its details one level in; a chip of unknown kind shows only
/// when verbose. The text starts each line with a newline and does not end
/// in one.
pub open spec fn chip_display(c: ChipModel, verbose: bool, indent: nat) -> Seq<char> {
    match c.chip {
        Some(ChipData::BleBeacon(b)) => {
            let r = match b.low_energy {
                Some(r) => r,
                None => default_radio(),
            };
            (if verbose || r.state == State::Off {
                "\n"@ + spaces(indent) + pad("beacon-ble ("@ + c.name@ + "):"@, 25) + " "@
                    + radio_display(r, verbose, 0)
            } else {
                Seq::empty()
            }) + (if verbose {
                "\n"@ + beacon_display(b, inner(indent))
            } else {
                Seq::empty()
            })
        },
        Some(ChipData::Bt { low_energy, classic }) => (match low_energy {
            Some(r) => radio_line("ble: "@, r, verbose, indent),
            None => Seq::empty(),
        }) + (match classic {
            Some(r) => radio_line("classic: "@, r, verbose, indent),
            None => Seq::empty(),
        }),
        Some(ChipData::Wifi(r)) => radio_line("wifi: "@, r, verbose, indent),
        Some(ChipData::Uwb(r)) => radio_line("uwb: "@, r, verbose, indent),
        None => if verbose {
            "\n"@ + spaces(indent) + "Unknown chip"@
        } else {
            Seq::empty()
        },
    }
}

/// Appends `n` spaces.
pub(crate) fn push_spaces(s: &mut String, n: usize)
    ensures
        final(s)@ == old(s)@ + spaces(n as nat),
{
    let ghost start = s@;
    let mut i: usize = 0;
    while i < n
        invariant
            i <= n,
            s@ == start + spaces(i as nat),
        decreases n - i,
    {
        s.push(' ');
        i = i + 1;
        assert(s@ =~= start + spaces(i as nat));
    }
}

/// Appends `t` padded on the right to `w` characters.
pub(crate) fn push_padded(s: &mut String, t: &str, w: usize)
    ensures
        final(s)@ == old(s)@ + pad(t@, w as nat),
{
    let ghost start = s@;
    push_str(s, t);
    let n = t.unicode_len();
    if n < w {
        push_spaces(s, w - n);
    }
    assert(s@ =~= start + pad(t@, w as nat));
}

/// Appends `t` padded on the left to `w` characters.
pub(crate) fn push_padded_left(s: &mut String, t: &str, w: usize)
    ensures
        final(s)@ == old(s)@ + pad_left(t@, w as nat),
{
    let ghost start = s@;
    let n = t.unicode_len();
    if n < w {
        push_spaces(s, w - n);
    }
    push_str(s, t);
    assert(s@ =~= start + pad_left(t@, w as nat));
}

/// Appends a number right-aligned on 9 characters.
pub(crate) fn push_count(s: &mut String, v: i32)
    ensures
        final(s)@ == old(s)@ + pad_left(signed_decimal(v as int), 9),
{
    let mut t = String::new();
    push_signed(&mut t, v);
    assert(t@ =~= signed_decimal(v as int));
    push_padded_left(s, t.as_str(), 9);
}

/// Appends the display of a radio.
fn push_radio(s: &mut String, r: &ChipRadio, verbose: bool)
    ensures
        final(s)@ == old(s)@ + radio_display(*r, verbose, 0),
{
    let ghost start = s@;
    let word = match r.state {
        State::On => "up",
        State::Off => "down",
        State::Unknown => "unknown",
    };
    proof {
        reveal_strlit("up");
        reveal_strlit("down");
        reveal_strlit("unknown");
    }
    push_padded(s, word, 9);
    let ghost mid = s@;
    if verbose {
        push_str(s, "| rx_count: ");
        push_count(s, r.rx_count);
        push_str(s, " | tx_count: ");
        push_count(s, r.tx_count);
    }
    assert(s@ =~= start + radio_display(*r, verbose, 0));
}

/// Appends a radio line of a chip (see `radio_line`).
fn push_radio_line(s: &mut String, label: &str, r: &ChipRadio, verbose: bool, indent: usize)
    ensures
        final(s)@ == old(s)@ + radio_line(label@, *r, verbose, indent as nat),
{
    let ghost start = s@;
    if verbose || r.state == State::Off {
        push_str(s, "\n");
        push_spaces(s, indent);
        push_padded(s, label, 9);
        push_radio(s, r, verbose);
        proof {
            reveal_strlit("\n");
        }
    }
    assert(s@ =~= start + radio_line(label@, *r, verbose, indent as nat));
}

/// Appends a field line (see `field_line`), the value being pushed after.
fn push_label(s: &mut String, indent: usize, label: &str)
    ensures
        final(s)@ == old(s)@ + spaces(indent as nat) + pad(label@, 25) + ": "@,
{
    let ghost start = s@;
    push_spaces(s, indent);
    push_padded(s, label, 25);
    push_str(s, ": ");
    assert(s@ =~= start + spaces(indent as nat) + pad(label@, 25) + ": "@);
}

/// Joins two blocks of lines (see `join_lines`).
fn join_lines_exec(a: String, b: String) -> (r: String)
    ensures
        r@ == join_lines(a@, b@),
{
    if a.unicode_len() == 0 {
        b
    } else if b.unicode_len() == 0 {
        a
    } else {
        let mut r = a;
        push_str(&mut r, "\n");
        push_str(&mut r, b.as_str());
        proof {
            reveal_strlit("\n");
        }
        r
    }
}

/// A field line, or nothing where `shown` is false.
fn field_text(shown: bool, indent: usize, label: &str, value: &str) -> (r: String)
    ensures
        r@ == (if shown {
            field_line(indent as nat, label@, value@)
        } else {
            Seq::empty()
        }),
{
    let mut s = String::new();
    if shown {
        push_label(&mut s, indent, label);
        push_str(&mut s, value);
        assert(s@ =~= field_line(indent as nat, label@, value@));
    }
    s
}

/// Appends the settings that are set.
fn push_settings(s: &mut String, st: &AdvertiseSettings, indent: usize)
    ensures
        final(s)@ == old(s)@ + settings_display(*st, indent as nat),
{
    let mut tx = String::new();
    push_signed(&mut tx, st.tx_power_level);
    push_str(&mut tx, " dBm");
    let mut iv = String::new();
    push_decimal(&mut iv, st.interval, 0);
    push_str(&mut iv, " ms");
    let a = field_text(st.tx_power_level != 0, indent, "tx power level", tx.as_str());
    let b = field_text(st.interval != 0, indent, "interval", iv.as_str());
    let t = join_lines_exec(a, b);
    push_str(s, t.as_str());
}

/// Appends the parts of the packet data that are set.
fn push_data(s: &mut String, d: &AdvertiseData, indent: usize)
    ensures
        final(s)@ == old(s)@ + data_display(*d, indent as nat),
{
    let mut n = String::new();
    push_decimal(&mut n, d.manufacturer_data.len() as u64, 0);
    let a = field_text(d.include_device_name, indent, "include device name", "true");
    let b = field_text(d.include_tx_power_level, indent, "include tx power level", "true");
    let c = field_text(d.manufacturer_data.len() != 0, indent, "manufacturer data bytes", n.as_str());
    let ab = join_lines_exec(a, b);
    let t = join_lines_exec(ab, c);
    proof {
        reveal_strlit("true");
    }
    push_str(s, t.as_str());
}

/// Appends the settings of a beacon, where any is set, under their heading.
fn push_settings_part(s: &mut String, settings: &Option<AdvertiseSettings>, indent: usize)
    requires
        (indent + 1) * INDENT_WIDTH <= usize::MAX,
    ensures
        final(s)@ == old(s)@ + (match *settings {
            Some(st) => if st.tx_power_level != 0 || st.interval != 0 {
                "\n"@ + spaces(indent as nat) + "advertise settings:\n"@ + settings_display(st, inner(indent as nat))
            } else {
                Seq::empty()
            },
            None => Seq::empty(),
        }),
{
    let ghost start = s@;
    match settings {
        Some(st) => if st.tx_power_level != 0 || st.interval != 0 {
            push_str(s, "\n");
            push_spaces(s, indent);
            push_str(s, "advertise settings:\n");
            push_settings(s, st, (indent + 1) * INDENT_WIDTH);
        },
        None => {},
    }
    proof {
        reveal_strlit("\n");
    }
    assert(s@ =~= start + match *settings {
        Some(st) => if st.tx_power_level != 0 || st.interval != 0 {
            "\n"@ + spaces(indent as nat) + "advertise settings:\n"@ + settings_display(st, inner(indent as nat))
        } else {
            Seq::empty()
        },
        None => Seq::empty(),
    });
}

/// Appends the packet data of a beacon, where any is set, under its heading.
fn push_data_part(s: &mut String, data: &Option<AdvertiseData>, indent: usize)
    requires
        (indent + 1) * INDENT_WIDTH <= usize::MAX,
    ensures
        final(s)@ == old(s)@ + (match *data {
            Some(d) => if d.include_device_name || d.include_tx_power_level
                || d.manufacturer_data@.len() != 0 {
                "\n"@ + spaces(indent as nat) + "advertise packet data:\n"@ + data_display(d, inner(indent as nat))
            } else {
                Seq::empty()
            },
            None => Seq::empty(),
        }),
{
    let ghost start = s@;
    match data {
        Some(d) => if d.include_device_name || d.include_tx_power_level
            || d.manufacturer_data.len() != 0 {
            push_str(s, "\n");
            push_spaces(s, indent);
            push_str(s, "advertise packet data:\n");
            push_data(s, d, (indent + 1) * INDENT_WIDTH);
        },
        None => {},
    }
    proof {
        reveal_strlit("\n");
    }
    assert(s@ =~= start + match *data {
        Some(d) => if d.include_device_name || d.include_tx_power_level
            || d.manufacturer_data@.len() != 0 {
            "\n"@ + spaces(indent as nat) + "advertise packet data:\n"@ + data_display(d, inner(indent as nat))
        } else {
            Seq::empty()
        },
        None => Seq::empty(),
    });
}

/// Appends the display of a beacon.
fn push_beacon(s: &mut String, b: &BluetoothBeacon, indent: usize)
    requires
        (indent + 1) * INDENT_WIDTH <= usize::MAX,
    ensures
        final(s)@ == old(s)@ + beacon_display(*b, indent as nat),
{
    let ghost start = s@;
    push_spaces(s, indent);
    push_str(s, "address: ");
    push_padded(s, b.address.as_str(), 16);
    let ghost a = s@;
    push_settings_part(s, &b.settings, indent);
    let ghost m = s@;
    push_data_part(s, &b.adv_data, indent);
    assert(s@ =~= start + beacon_display(*b, indent as nat));
}

impl<'a> Displayer<&'a State> {
    /// The state as the command line prints it (see `state_display`).
    pub fn state_text(&self) -> (r: String)
        ensures
            r@ == state_display(*self.value, self.indent as nat),
    {
        let mut s = String::new();
        push_spaces(&mut s, self.indent);
        let r = ChipRadio { state: *self.value, rx_count: 0, tx_count: 0 };
        push_radio(&mut s, &r, false);
        assert(s@ =~= state_display(*self.value, self.indent as nat));
        s
    }
}

impl<'a> Displayer<&'a ChipRadio> {
    /// The radio as the command line prints it (see `radio_display`).
    pub fn radio_text(&self) -> (r: String)
        ensures
            r@ == radio_display(*self.value, self.verbose, self.indent as nat),
    {
        let mut s = String::new();
        push_spaces(&mut s, self.indent);
        push_radio(&mut s, self.value, self.verbose);
        assert(s@ =~= radio_display(*self.value, self.verbose, self.indent as nat));
        s
    }
}

impl<'a> Displayer<&'a BluetoothBeacon> {
    /// The beacon as the command line prints it (see `beacon_display`).
    pub fn beacon_text(&self) -> (r: String)
        requires
            (self.indent + 1) * INDENT_WIDTH <= usize::MAX,
        ensures
            r@ == beacon_display(*self.value, self.indent as nat),
    {
        let mut s = String::new();
        push_beacon(&mut s, self.value, self.indent);
        assert(s@ =~= beacon_display(*self.value, self.indent as nat));
        s
    }
}

impl<'a> Displayer<&'a ChipModel> {
    /// The chip as the command line prints it (see `chip_display`).
    pub fn chip_text(&self) -> (r: String)
        requires
            (self.verbose && (self.value.chip matches Some(ChipData::BleBeacon(_)))) ==> (
            (self.indent + 1) * INDENT_WIDTH + 1) * INDENT_WIDTH <= usize::MAX,
        ensures
            r@ == chip_display(*self.value, self.verbose, self.indent as nat),
    {
        let mut s = String::new();
        let indent = self.indent;
        let verbose = self.verbose;
        match &self.value.chip {
            Some(ChipData::BleBeacon(b)) => {
                let r = match b.low_energy {
                    Some(r) => r,
                    None => ChipRadio { state: State::Unknown, rx_count: 0, tx_count: 0 },
                };
                if verbose || r.state == State::Off {
                    let mut label = String::new();
                    push_str(&mut label, "beacon-ble (");
                    push_str(&mut label, self.value.name.as_str());
                    push_str(&mut label, "):");
                    push_str(&mut s, "\n");
                    push_spaces(&mut s, indent);
                    push_padded(&mut s, label.as_str(), 25);
                    push_str(&mut s, " ");
                    push_radio(&mut s, &r, verbose);
                }
                let ghost a = s@;
                if verbose {
                    push_str(&mut s, "\n");
                    push_beacon(&mut s, b, (indent + 1) * INDENT_WIDTH);
                }
            },
            Some(ChipData::Bt { low_energy, classic }) => {
                match low_energy {
                    Some(r) => push_radio_line(&mut s, "ble: ", r, verbose, indent),
                    None => {},
                }
                let ghost a = s@;
                match classic {
                    Some(r) => push_radio_line(&mut s, "classic: ", r, verbose, indent),
                    None => {},
                }
            },
            Some(ChipData::Wifi(r)) => push_radio_line(&mut s, "wifi: ", r, verbose, indent),
            Some(ChipData::Uwb(r)) => push_radio_line(&mut s, "uwb: ", r, verbose, indent),
            None => {
                if verbose {
                    push_str(&mut s, "\n");
                    push_spaces(&mut s, indent);
                    push_str(&mut s, "Unknown chip");
                }
            },
        }
        proof {
            reveal_strlit("\n");
        }
        assert(s@ =~= chip_display(*self.value, self.verbose, self.indent as nat));
        s
    }
}


/// A device, as the frontend describes it. Its position comes as text,
/// the coordinates written `x, y, z` with two decimals.
#[derive(Debug)]
pub struct DeviceModel {
    pub name: String,
    pub position: String,
    /// Whether all three coordinates are zero.
    pub at_origin: bool,
    pub chips: Vec<ChipModel>,
}

/// Whether a chip can be shown at `indent` without the indentation of its
/// parts leaving the range of `usize`.
pub open spec fn chip_fits(c: ChipModel, verbose: bool, indent: nat) -> bool {
    (verbose && (c.chip matches Some(ChipData::BleBeacon(_)))) ==> ((indent + 1) * INDENT_WIDTH
        + 1) * INDENT_WIDTH <= usize::MAX
}

/// The chips of a device, each one level in, on lines that a newline
/// separates.
pub open spec fn chips_display(cs: Seq<ChipModel>, verbose: bool, indent: nat) -> Seq<char>
    decreases cs.len(),
{
    if cs.len() == 0 {
        Seq::empty()
    } else {
        let rest = chips_display(cs.drop_last(), verbose, indent);
        (if cs.len() > 1 {
            rest + "\n"@
        } else {
            rest
        }) + spaces(indent) + chip_display(cs.last(), verbose, inner(indent))
    }
}

/// A device: its name padded to 9 characters, its position when verbose
/// or away from the origin, then its chips.
pub open spec fn device_display(d: DeviceModel, verbose: bool, indent: nat) -> Seq<char> {
    spaces(indent) + pad(d.name@, 9) + " "@ + (if verbose || !d.at_origin {
        " position: "@ + d.position@
    } else {
        Seq::empty()
    }) + chips_display(d.chips@, verbose, indent)
}

/// Whether the chips of a device can be shown (see `chip_fits`).
pub open spec fn device_fits(d: DeviceModel, verbose: bool, indent: nat) -> bool {
    &&& d.chips@.len() > 0 ==> inner(indent) <= usize::MAX
    &&& forall|k: int| 0 <= k < d.chips@.len() ==> chip_fits(#[trigger] d.chips@[k], verbose, inner(indent))
}

/// Appends the chips of a device.
fn push_chips(s: &mut String, cs: &Vec<ChipModel>, verbose: bool, indent: usize)
    requires
        cs@.len() > 0 ==> inner(indent as nat) <= usize::MAX,
        forall|k: int| 0 <= k < cs@.len() ==> chip_fits(#[trigger] cs@[k], verbose, inner(indent as nat)),
    ensures
        final(s)@ == old(s)@ + chips_display(cs@, verbose, indent as nat),
{
    let ghost start = s@;
    let mut i: usize = 0;
    while i < cs.len()
        invariant
            i <= cs@.len(),
            cs@.len() > 0 ==> inner(indent as nat) <= usize::MAX,
            forall|k: int| 0 <= k < cs@.len() ==> chip_fits(#[trigger] cs@[k], verbose, inner(indent as nat)),
            s@ == start + chips_display(cs@.take(i as int), verbose, indent as nat),
        decreases cs@.len() - i,
    {
        let ghost before = s@;
        if i > 0 {
            push_str(s, "\n");
        }
        push_spaces(s, indent);
        let d = Displayer { value: &cs[i], verbose, indent: (indent + 1) * INDENT_WIDTH };
        assert(chip_fits(cs@[i as int], verbose, inner(indent as nat)));
        let t = d.chip_text();
        push_str(s, t.as_str());
        assert(cs@.take(i + 1).drop_last() =~= cs@.take(i as int));
        proof {
            reveal_strlit("\n");
        }
        assert(s@ =~= start + chips_display(cs@.take(i + 1), verbose, indent as nat));
        i = i + 1;
    }
    assert(cs@.take(i as int) =~= cs@);
}

impl<'a> Displayer<&'a DeviceModel> {
    /// The device as the command line prints it (see `device_display`).
    pub fn device_text(&self) -> (r: String)
        requires
            device_fits(*self.value, self.verbose, self.indent as nat),
        ensures
            r@ == device_display(*self.value, self.verbose, self.indent as nat),
    {
        let mut s = String::new();
        push_spaces(&mut s, self.indent);
        push_padded(&mut s, self.value.name.as_str(), 9);
        push_str(&mut s, " ");
        if self.verbose || !self.value.at_origin {
            push_str(&mut s, " position: ");
            push_str(&mut s, self.value.position.as_str());
        }
        let ghost head = s@;
        push_chips(&mut s, &self.value.chips, self.verbose, self.indent);
        assert(s@ =~= device_display(*self.value, self.verbose, self.indent as nat));
        s
    }
}


/// A list of devices, each at the indentation with its own at none, on
/// lines that a newline separates.
pub open spec fn devices_display(ds: Seq<DeviceModel>, verbose: bool, indent: nat) -> Seq<char>
    decreases ds.len(),
{
    if ds.len() == 0 {
        Seq::empty()
    } else {
        let rest = devices_display(ds.drop_last(), verbose, indent);
        (if ds.len() > 1 {
            rest + "\n"@
        } else {
            rest
        }) + spaces(indent) + device_display(ds.last(), verbose, 0)
    }
}

impl<'a> Displayer<&'a Vec<DeviceModel>> {
    /// The listed devices as the command line prints them (see
    /// `devices_display`).
    pub fn devices_text(&self) -> (r: String)
        requires
            forall|k: int| 0 <= k < self.value@.len() ==> device_fits(#[trigger] self.value@[k], self.verbose, 0),
        ensures
            r@ == devices_display(self.value@, self.verbose, self.indent as nat),
    {
        let ds = self.value;
        let mut s = String::new();
        let mut i: usize = 0;
        while i < ds.len()
            invariant
                i <= ds@.len(),
                forall|k: int| 0 <= k < ds@.len() ==> device_fits(#[trigger] ds@[k], self.verbose, 0),
                s@ == devices_display(ds@.take(i as int), self.verbose, self.indent as nat),
            decreases ds@.len() - i,
        {
            if i > 0 {
                push_str(&mut s, "\n");
            }
            push_spaces(&mut s, self.indent);
            assert(device_fits(ds@[i as int], self.verbose, 0));
            let d = Displayer { value: &ds[i], verbose: self.verbose, indent: 0 };
            let t = d.device_text();
            push_str(&mut s, t.as_str());
            assert(ds@.take(i + 1).drop_last() =~= ds@.take(i as int));
            proof {
                reveal_strlit("\n");
            }
            assert(s@ =~= devices_display(ds@.take(i + 1), self.verbose, self.indent as nat));
            i = i + 1;
        }
        assert(ds@.take(i as int) =~= ds@);
        s
    }
}


/// Whether a text ends in a newline.
pub open spec fn ends_in_newline(s: Seq<char>) -> bool {
    s.len() > 0 && s.last() == '\n'
}

proof fn lemma_concat_end(a: Seq<char>, b: Seq<char>)
    ensures
        !ends_in_newline(a) && !ends_in_newline(b) ==> !ends_in_newline(a + b),
{
    if b.len() > 0 {
        assert((a + b).last() == b.last());
    } else {
        assert(a + b =~= a);
    }
}

proof fn lemma_decimal_end(n: nat)
    ensures
        decimal(n).len() > 0,
        !ends_in_newline(decimal(n)),
    decreases n,
{
    crate::text::lemma_decimal_nonempty(n);
    if n >= 10 {
        lemma_decimal_end(n / 10);
        assert(decimal(n).last() == ('0' as u8 + (n % 10) as u8) as char);
        assert(('0' as u8 + (n % 10) as u8) as char != '\n');
    } else {
        assert(decimal(n) =~= seq![('0' as u8 + n as u8) as char]);
    }
}

proof fn lemma_signed_end(v: int)
    ensures
        !ends_in_newline(signed_decimal(v)),
{
    if v < 0 {
        lemma_decimal_end((-v) as nat);
        lemma_concat_end(seq!['-'], decimal((-v) as nat));
    } else {
        lemma_decimal_end(v as nat);
    }
}

proof fn lemma_pad_end(s: Seq<char>, w: nat)
    ensures
        !ends_in_newline(s) ==> !ends_in_newline(pad(s, w)),
        !ends_in_newline(s) ==> !ends_in_newline(pad_left(s, w)),
{
    if s.len() < w {
        let sp = spaces((w - s.len()) as nat);
        assert(sp.last() == ' ');
        lemma_concat_end(s, sp);
        lemma_concat_end(sp, s);
    }
}

proof fn lemma_join_end(a: Seq<char>, b: Seq<char>)
    ensures
        !ends_in_newline(a) && !ends_in_newline(b) ==> !ends_in_newline(join_lines(a, b)),
{
    lemma_concat_end(a + "\n"@, b);
}

/// What a radio shows is not empty and does not end in a newline; so
/// `l` stands in `s` as a line of its own: at the start of `s` or after a
/// newline, and at the end of `s` or before a newline.
pub open spec fn has_line(s: Seq<char>, l: Seq<char>) -> bool {
    exists|k: int|
        {
            &&& 0 <= k
            &&& k + l.len() <= s.len()
            &&& #[trigger] s.subrange(k, k + l.len()) == l
            &&& (k == 0 || s[k - 1] == '\n')
            &&& (k + l.len() == s.len() || s[k + l.len()] == '\n')
        }
}

/// A nonempty text stands in itself as a line.
proof fn lemma_has_line_self(l: Seq<char>)
    ensures
        has_line(l, l),
{
    let k: int = 0;
    assert(l.subrange(k, k + l.len()) =~= l);
}

/// Joining keeps the lines of both blocks, and adds one newline between
/// two nonempty blocks.
proof fn lemma_join_lines(a: Seq<char>, b: Seq<char>, l: Seq<char>)
    requires
        l.len() > 0,
    ensures
        join_lines(a, b).len() == a.len() + b.len() + (if a.len() > 0 && b.len() > 0 {
            1int
        } else {
            0int
        }),
        has_line(a, l) ==> has_line(join_lines(a, b), l),
        has_line(b, l) ==> has_line(join_lines(a, b), l),
{
    let s = join_lines(a, b);
    if a.len() > 0 && b.len() > 0 {
        assert(s == a + "\n"@ + b);
        assert(("\n"@).len() == 1 && ("\n"@)[0] == '\n') by {
            reveal_strlit("\n");
        }
        if has_line(a, l) {
            let k = choose|k: int|
                {
                    &&& 0 <= k
                    &&& k + l.len() <= a.len()
                    &&& #[trigger] a.subrange(k, k + l.len()) == l
                    &&& (k == 0 || a[k - 1] == '\n')
                    &&& (k + l.len() == a.len() || a[k + l.len()] == '\n')
                };
            assert(s.subrange(k, k + l.len()) =~= a.subrange(k, k + l.len()));
            assert(k + l.len() < s.len());
        }
        if has_line(b, l) {
            let k = choose|k: int|
                {
                    &&& 0 <= k
                    &&& k + l.len() <= b.len()
                    &&& #[trigger] b.subrange(k, k + l.len()) == l
                    &&& (k == 0 || b[k - 1] == '\n')
                    &&& (k + l.len() == b.len() || b[k + l.len()] == '\n')
                };
            let k2 = a.len() + 1 + k;
            assert(s.subrange(k2, k2 + l.len()) =~= b.subrange(k, k + l.len()));
            assert(s[k2 - 1] == (if k == 0 { '\n' } else { b[k - 1] }));
            assert(k2 + l.len() == s.len() || s[k2 + l.len()] == b[k + l.len()]);
        }
    }
}

/// A field line is not empty.
proof fn lemma_field_line_len(indent: nat, label: Seq<char>, value: Seq<char>)
    ensures
        field_line(indent, label, value).len() >= 25,
{
}

/// The packet data of a beacon shows, each on a line of its own, an
/// `include device name` line exactly when the device name is included, an
/// `include tx power level` line exactly when the transmit power is
/// included, and the count of manufacturer data bytes exactly when there
/// are any; nothing else but the newlines between them.
pub proof fn lemma_data_display_lines(d: AdvertiseData, indent: nat)
    ensures
        d.include_device_name ==> has_line(
            data_display(d, indent),
            field_line(indent, "include device name"@, "true"@),
        ),
        d.include_tx_power_level ==> has_line(
            data_display(d, indent),
            field_line(indent, "include tx power level"@, "true"@),
        ),
        d.manufacturer_data@.len() != 0 ==> has_line(
            data_display(d, indent),
            field_line(indent, "manufacturer data bytes"@, decimal(d.manufacturer_data@.len())),
        ),
        ({
            let a = if d.include_device_name {
                field_line(indent, "include device name"@, "true"@).len() as int
            } else {
                -1
            };
            let b = if d.include_tx_power_level {
                field_line(indent, "include tx power level"@, "true"@).len() as int
            } else {
                -1
            };
            let c = if d.manufacturer_data@.len() != 0 {
                field_line(
                    indent,
                    "manufacturer data bytes"@,
                    decimal(d.manufacturer_data@.len()),
                ).len() as int
            } else {
                -1
            };
            let n = (if a >= 0 { 1int } else { 0int }) + (if b >= 0 { 1int } else { 0int }) + (if c
                >= 0 { 1int } else { 0int });
            data_display(d, indent).len() == (if n == 0 {
                0
            } else {
                (if a >= 0 { a } else { 0 }) + (if b >= 0 { b } else { 0 }) + (if c >= 0 { c } else { 0 }) + n - 1
            })
        }),
{
    let l1 = field_line(indent, "include device name"@, "true"@);
    let l2 = field_line(indent, "include tx power level"@, "true"@);
    let l3 = field_line(indent, "manufacturer data bytes"@, decimal(d.manufacturer_data@.len()));
    lemma_field_line_len(indent, "include device name"@, "true"@);
    lemma_field_line_len(indent, "include tx power level"@, "true"@);
    lemma_field_line_len(indent, "manufacturer data bytes"@, decimal(d.manufacturer_data@.len()));
    let p1 = if d.include_device_name { l1 } else { Seq::<char>::empty() };
    let p2 = if d.include_tx_power_level { l2 } else { Seq::<char>::empty() };
    let p3 = if d.manufacturer_data@.len() != 0 { l3 } else { Seq::<char>::empty() };
    lemma_has_line_self(l1);
    lemma_has_line_self(l2);
    lemma_has_line_self(l3);
    lemma_join_lines(p1, p2, l1);
    lemma_join_lines(p1, p2, l2);
    lemma_join_lines(join_lines(p1, p2), p3, l1);
    lemma_join_lines(join_lines(p1, p2), p3, l2);
    lemma_join_lines(join_lines(p1, p2), p3, l3);
    assert(data_display(d, indent) == join_lines(join_lines(p1, p2), p3));
}

/// The settings of a beacon show, each on a line of its own, the transmit
/// power in dBm exactly when it is not zero and the interval in ms exactly
/// when it is not zero; nothing else but the newline between them.
pub proof fn lemma_settings_display_lines(st: AdvertiseSettings, indent: nat)
    ensures
        st.tx_power_level != 0 ==> has_line(
            settings_display(st, indent),
            field_line(indent, "tx power level"@, signed_decimal(st.tx_power_level as int) + " dBm"@),
        ),
        st.interval != 0 ==> has_line(
            settings_display(st, indent),
            field_line(indent, "interval"@, decimal(st.interval as nat) + " ms"@),
        ),
        ({
            let a = field_line(indent, "tx power level"@, signed_decimal(st.tx_power_level as int) + " dBm"@).len() as int;
            let b = field_line(indent, "interval"@, decimal(st.interval as nat) + " ms"@).len() as int;
            settings_display(st, indent).len() == if st.tx_power_level != 0 && st.interval != 0 {
                a + b + 1
            } else if st.tx_power_level != 0 {
                a
            } else if st.interval != 0 {
                b
            } else {
                0
            }
        }),
{
    let l1 = field_line(indent, "tx power level"@, signed_decimal(st.tx_power_level as int) + " dBm"@);
    let l2 = field_line(indent, "interval"@, decimal(st.interval as nat) + " ms"@);
    lemma_field_line_len(indent, "tx power level"@, signed_decimal(st.tx_power_level as int) + " dBm"@);
    lemma_field_line_len(indent, "interval"@, decimal(st.interval as nat) + " ms"@);
    let p1 = if st.tx_power_level != 0 { l1 } else { Seq::<char>::empty() };
    let p2 = if st.interval != 0 { l2 } else { Seq::<char>::empty() };
    lemma_has_line_self(l1);
    lemma_has_line_self(l2);
    lemma_join_lines(p1, p2, l1);
    lemma_join_lines(p1, p2, l2);
    assert(settings_display(st, indent) == join_lines(p1, p2));
}

/// A line of a text stays a line of it after a prefix that ends in a
/// newline.
proof fn lemma_has_line_after(p: Seq<char>, s: Seq<char>, l: Seq<char>)
    requires
        p.len() > 0,
        p.last() == '\n',
        has_line(s, l),
    ensures
        has_line(p + s, l),
{
    let k = choose|k: int|
        {
            &&& 0 <= k
            &&& k + l.len() <= s.len()
            &&& #[trigger] s.subrange(k, k + l.len()) == l
            &&& (k == 0 || s[k - 1] == '\n')
            &&& (k + l.len() == s.len() || s[k + l.len()] == '\n')
        };
    let t = p + s;
    let k2 = p.len() + k;
    assert(t.subrange(k2, k2 + l.len()) =~= s.subrange(k, k + l.len()));
    assert(t[k2 - 1] == (if k == 0 { p.last() } else { s[k - 1] }));
    assert(k2 + l.len() == t.len() || t[k2 + l.len()] == s[k + l.len()]);
}

/// The text of a beacon with packet data that is set ends with that data,
/// after a newline.
proof fn lemma_beacon_display_ends_with_data(b: BluetoothBeacon, d: AdvertiseData, indent: nat) -> (p: Seq<char>)
    requires
        b.adv_data == Some(d),
        d.include_device_name || d.include_tx_power_level || d.manufacturer_data@.len() != 0,
    ensures
        p.len() > 0,
        p.last() == '\n',
        beacon_display(b, indent) == p + data_display(d, inner(indent)),
{
    reveal_strlit("advertise packet data:\n");
    let head = "\n"@ + spaces(indent) + "advertise packet data:\n"@;
    let pre = spaces(indent) + "address: "@ + pad(b.address@, 16) + (match b.settings {
        Some(s) => if s.tx_power_level != 0 || s.interval != 0 {
            "\n"@ + spaces(indent) + "advertise settings:\n"@ + settings_display(s, inner(indent))
        } else {
            Seq::empty()
        },
        None => Seq::empty(),
    });
    let p = pre + head;
    assert(beacon_display(b, indent) == pre + head + data_display(d, inner(indent)));
    assert(pre + head + data_display(d, inner(indent)) =~= p + data_display(d, inner(indent)));
    p
}

/// The text of a beacon chip shown verbosely ends with its beacon, one
/// level in, after a newline.
proof fn lemma_chip_display_ends_with_beacon(c: ChipModel, b: BluetoothBeacon, indent: nat) -> (p: Seq<char>)
    requires
        c.chip == Some(ChipData::BleBeacon(b)),
    ensures
        p.len() > 0,
        p.last() == '\n',
        chip_display(c, true, indent) == p + beacon_display(b, inner(indent)),
{
    reveal_strlit("\n");
    let r = match b.low_energy {
        Some(r) => r,
        None => default_radio(),
    };
    let first = "\n"@ + spaces(indent) + pad("beacon-ble ("@ + c.name@ + "):"@, 25) + " "@
        + radio_display(r, true, 0);
    let p = first + "\n"@;
    assert(chip_display(c, true, indent) == first + ("\n"@ + beacon_display(b, inner(indent))));
    assert(first + ("\n"@ + beacon_display(b, inner(indent))) =~= p + beacon_display(b, inner(indent)));
    p
}

/// A line of the packet data of a beacon is a line of the beacon's text.
proof fn lemma_beacon_keeps_data_line(b: BluetoothBeacon, d: AdvertiseData, indent: nat, l: Seq<char>)
    requires
        b.adv_data == Some(d),
        l.len() > 0,
        has_line(data_display(d, inner(indent)), l),
    ensures
        has_line(beacon_display(b, indent), l),
{
    if d.include_device_name || d.include_tx_power_level || d.manufacturer_data@.len() != 0 {
        let p = lemma_beacon_display_ends_with_data(b, d, indent);
        lemma_has_line_after(p, data_display(d, inner(indent)), l);
    } else {
        assert(data_display(d, inner(indent)).len() == 0) by {
            lemma_data_display_lines(d, inner(indent));
        }
    }
}

/// A beacon with packet data shows each part of it that is set as a line
/// of its own, one level in (see `lemma_data_display_lines`); shown
/// verbosely, a beacon chip does too, two levels in.
pub proof fn lemma_beacon_data_lines(c: ChipModel, b: BluetoothBeacon, d: AdvertiseData, indent: nat)
    requires
        c.chip == Some(ChipData::BleBeacon(b)),
        b.adv_data == Some(d),
    ensures
        d.include_device_name ==> has_line(
            beacon_display(b, indent),
            field_line(inner(indent), "include device name"@, "true"@),
        ) && has_line(
            chip_display(c, true, indent),
            field_line(inner(inner(indent)), "include device name"@, "true"@),
        ),
        d.include_tx_power_level ==> has_line(
            beacon_display(b, indent),
            field_line(inner(indent), "include tx power level"@, "true"@),
        ) && has_line(
            chip_display(c, true, indent),
            field_line(inner(inner(indent)), "include tx power level"@, "true"@),
        ),
        d.manufacturer_data@.len() != 0 ==> has_line(
            beacon_display(b, indent),
            field_line(inner(indent), "manufacturer data bytes"@, decimal(d.manufacturer_data@.len())),
        ) && has_line(
            chip_display(c, true, indent),
            field_line(
                inner(inner(indent)),
                "manufacturer data bytes"@,
                decimal(d.manufacturer_data@.len()),
            ),
        ),
{
    let bi = inner(indent);
    lemma_data_display_lines(d, bi);
    lemma_data_display_lines(d, inner(bi));
    let p = lemma_chip_display_ends_with_beacon(c, b, indent);
    let l1 = field_line(bi, "include device name"@, "true"@);
    let l2 = field_line(bi, "include tx power level"@, "true"@);
    let l3 = field_line(bi, "manufacturer data bytes"@, decimal(d.manufacturer_data@.len()));
    let m1 = field_line(inner(bi), "include device name"@, "true"@);
    let m2 = field_line(inner(bi), "include tx power level"@, "true"@);
    let m3 = field_line(inner(bi), "manufacturer data bytes"@, decimal(d.manufacturer_data@.len()));
    lemma_field_line_len(bi, "include device name"@, "true"@);
    lemma_field_line_len(bi, "include tx power level"@, "true"@);
    lemma_field_line_len(bi, "manufacturer data bytes"@, decimal(d.manufacturer_data@.len()));
    lemma_field_line_len(inner(bi), "include device name"@, "true"@);
    lemma_field_line_len(inner(bi), "include tx power level"@, "true"@);
    lemma_field_line_len(inner(bi), "manufacturer data bytes"@, decimal(d.manufacturer_data@.len()));
    if d.include_device_name {
        lemma_beacon_keeps_data_line(b, d, indent, l1);
        lemma_beacon_keeps_data_line(b, d, bi, m1);
        lemma_has_line_after(p, beacon_display(b, bi), m1);
    }
    if d.include_tx_power_level {
        lemma_beacon_keeps_data_line(b, d, indent, l2);
        lemma_beacon_keeps_data_line(b, d, bi, m2);
        lemma_has_line_after(p, beacon_display(b, bi), m2);
    }
    if d.manufacturer_data@.len() != 0 {
        lemma_beacon_keeps_data_line(b, d, indent, l3);
        lemma_beacon_keeps_data_line(b, d, bi, m3);
        lemma_has_line_after(p, beacon_display(b, bi), m3);
    }
}

/// neither does what its state shows.
pub proof fn lemma_radio_end(r: ChipRadio, verbose: bool, indent: nat)
    ensures
        radio_display(r, verbose, indent).len() > 0,
        !ends_in_newline(radio_display(r, verbose, indent)),
{
    reveal_strlit("up");
    reveal_strlit("down");
    reveal_strlit("unknown");
    let w = state_word(r.state);
    assert(w.len() > 0 && w.last() != '\n');
    lemma_pad_end(w, 9);
    let st = state_display(r.state, 0);
    assert(st =~= spaces(0) + pad(w, 9));
    lemma_concat_end(spaces(0), pad(w, 9));
    lemma_concat_end(spaces(indent), st);
    if verbose {
        lemma_signed_end(r.rx_count as int);
        lemma_signed_end(r.tx_count as int);
        lemma_pad_end(signed_decimal(r.tx_count as int), 9);
        let tail = "| rx_count: "@ + pad_left(signed_decimal(r.rx_count as int), 9) + " | tx_count: "@
            + pad_left(signed_decimal(r.tx_count as int), 9);
        lemma_concat_end(
            "| rx_count: "@ + pad_left(signed_decimal(r.rx_count as int), 9) + " | tx_count: "@,
            pad_left(signed_decimal(r.tx_count as int), 9),
        );
        lemma_concat_end(spaces(indent) + st, tail);
    } else {
        assert(radio_display(r, verbose, indent) =~= spaces(indent) + st);
    }
}

proof fn lemma_field_end(indent: nat, label: Seq<char>, value: Seq<char>)
    ensures
        !ends_in_newline(value) ==> !ends_in_newline(field_line(indent, label, value)),
{
    reveal_strlit(": ");
    let a = spaces(indent) + pad(label, 25) + ": "@;
    assert(a.last() == ' ');
    lemma_concat_end(a, value);
}

/// What a beacon shows does not end in a newline, as long as its address
/// does not end in one.
pub proof fn lemma_beacon_end(b: BluetoothBeacon, indent: nat)
    requires
        !ends_in_newline(b.address@),
    ensures
        !ends_in_newline(beacon_display(b, indent)),
{
    reveal_strlit(" dBm");
    reveal_strlit(" ms");
    reveal_strlit("true");
    lemma_pad_end(b.address@, 16);
    let head = spaces(indent) + "address: "@ + pad(b.address@, 16);
    lemma_concat_end(spaces(indent) + "address: "@, pad(b.address@, 16));
    let sp = match b.settings {
        Some(s) => if s.tx_power_level != 0 || s.interval != 0 {
            "\n"@ + spaces(indent) + "advertise settings:\n"@ + settings_display(s, inner(indent))
        } else {
            Seq::empty()
        },
        None => Seq::empty(),
    };
    let dp = match b.adv_data {
        Some(d) => if d.include_device_name || d.include_tx_power_level || d.manufacturer_data@.len()
            != 0 {
            "\n"@ + spaces(indent) + "advertise packet data:\n"@ + data_display(d, inner(indent))
        } else {
            Seq::empty()
        },
        None => Seq::empty(),
    };
    match b.settings {
        Some(s) => {
            let i2 = inner(indent);
            lemma_signed_end(s.tx_power_level as int);
            lemma_decimal_end(s.interval as nat);
            let tx = signed_decimal(s.tx_power_level as int) + " dBm"@;
            let iv = decimal(s.interval as nat) + " ms"@;
            assert(tx.last() == 'm');
            assert(iv.last() == 's');
            lemma_field_end(i2, "tx power level"@, tx);
            lemma_field_end(i2, "interval"@, iv);
            let p1 = if s.tx_power_level != 0 { field_line(i2, "tx power level"@, tx) } else { Seq::<char>::empty() };
            let p2 = if s.interval != 0 { field_line(i2, "interval"@, iv) } else { Seq::<char>::empty() };
            lemma_join_end(p1, p2);
            lemma_concat_end("\n"@ + spaces(indent) + "advertise settings:\n"@, settings_display(s, i2));
        },
        None => {},
    }
    match b.adv_data {
        Some(d) => {
            let i2 = inner(indent);
            lemma_decimal_end(d.manufacturer_data@.len());
            assert("true"@.last() == 'e');
            lemma_field_end(i2, "include device name"@, "true"@);
            lemma_field_end(i2, "include tx power level"@, "true"@);
            lemma_field_end(i2, "manufacturer data bytes"@, decimal(d.manufacturer_data@.len()));
            let p1 = if d.include_device_name { field_line(i2, "include device name"@, "true"@) } else { Seq::<char>::empty() };
            let p2 = if d.include_tx_power_level { field_line(i2, "include tx power level"@, "true"@) } else { Seq::<char>::empty() };
            let p3 = if d.manufacturer_data@.len() != 0 { field_line(i2, "manufacturer data bytes"@, decimal(d.manufacturer_data@.len())) } else { Seq::<char>::empty() };
            lemma_join_end(p1, p2);
            lemma_join_end(join_lines(p1, p2), p3);
            lemma_concat_end("\n"@ + spaces(indent) + "advertise packet data:\n"@, data_display(d, i2));
        },
        None => {},
    }
    lemma_concat_end(head, sp);
    lemma_concat_end(head + sp, dp);
    assert(beacon_display(b, indent) == head + sp + dp);
}

proof fn lemma_radio_line_end(label: Seq<char>, r: ChipRadio, verbose: bool, indent: nat)
    ensures
        !ends_in_newline(radio_line(label, r, verbose, indent)),
{
    lemma_radio_end(r, verbose, 0);
    lemma_concat_end("\n"@ + spaces(indent) + pad(label, 9), radio_display(r, verbose, 0));
}

proof fn lemma_beacon_chip_end(name: Seq<char>, b: BluetoothBeacon, verbose: bool, indent: nat)
    requires
        verbose ==> !ends_in_newline(b.address@),
    ensures
        ({
            let r = match b.low_energy {
                Some(r) => r,
                None => default_radio(),
            };
            !ends_in_newline(
                (if verbose || r.state == State::Off {
                    "\n"@ + spaces(indent) + pad("beacon-ble ("@ + name + "):"@, 25) + " "@
                        + radio_display(r, verbose, 0)
                } else {
                    Seq::empty()
                }) + (if verbose {
                    "\n"@ + beacon_display(b, inner(indent))
                } else {
                    Seq::empty()
                }),
            )
        }),
{
    let r = match b.low_energy {
        Some(r) => r,
        None => default_radio(),
    };
    lemma_radio_end(r, verbose, 0);
    let line = "\n"@ + spaces(indent) + pad("beacon-ble ("@ + name + "):"@, 25) + " "@;
    lemma_concat_end(line, radio_display(r, verbose, 0));
    let first = if verbose || r.state == State::Off {
        line + radio_display(r, verbose, 0)
    } else {
        Seq::<char>::empty()
    };
    if verbose {
        lemma_beacon_end(b, inner(indent));
        let bd = beacon_display(b, inner(indent));
        reveal_strlit("address: ");
        assert(bd.len() > 0);
        lemma_concat_end("\n"@, bd);
        lemma_concat_end(first, "\n"@ + bd);
    } else {
        lemma_concat_end(first, Seq::empty());
    }
}

/// What a chip shows does not end in a newline, as long as a beacon's
/// address, shown in full when verbose, does not end in one itself.
pub proof fn lemma_chip_display_no_trailing_newline(c: ChipModel, verbose: bool, indent: nat)
    requires
        (verbose && (c.chip matches Some(ChipData::BleBeacon(b)))) ==> !ends_in_newline(
            c.chip->Some_0->BleBeacon_0.address@,
        ),
    ensures
        !ends_in_newline(chip_display(c, verbose, indent)),
{
    match c.chip {
        Some(ChipData::BleBeacon(b)) => {
            lemma_beacon_chip_end(c.name@, b, verbose, indent);
        },
        Some(ChipData::Bt { low_energy, classic }) => {
            let a = match low_energy {
                Some(r) => radio_line("ble: "@, r, verbose, indent),
                None => Seq::<char>::empty(),
            };
            let b = match classic {
                Some(r) => radio_line("classic: "@, r, verbose, indent),
                None => Seq::<char>::empty(),
            };
            match low_energy {
                Some(r) => lemma_radio_line_end("ble: "@, r, verbose, indent),
                None => {},
            }
            match classic {
                Some(r) => lemma_radio_line_end("classic: "@, r, verbose, indent),
                None => {},
            }
            lemma_concat_end(a, b);
        },
        Some(ChipData::Wifi(r)) => lemma_radio_line_end("wifi: "@, r, verbose, indent),
        Some(ChipData::Uwb(r)) => lemma_radio_line_end("uwb: "@, r, verbose, indent),
        None => {
            reveal_strlit("Unknown chip");
            assert("Unknown chip"@.last() == 'p');
            lemma_concat_end("\n"@ + spaces(indent), "Unknown chip"@);
        },
    }
}

} // verus!
