//! The command line of the netsim client: the commands' arguments.

use crate::grpc_client::GrpcMethod;
use crate::response::ChipKind;
use crate::text::push_str;
use vstd::prelude::*;

verus! {

/// The radio of a device that a command controls.
#[derive(Clone, Copy, Debug, PartialEq, Eq, Structural)]
pub enum RadioType {
    Ble,
    Classic,
    Wifi,
    Uwb,
}

impl RadioType {
    /// The variant's name.
    pub open spec fn name(self) -> Seq<char> {
        match self {
            RadioType::Ble => "Ble"@,
            RadioType::Classic => "Classic"@,
            RadioType::Wifi => "Wifi"@,
            RadioType::Uwb => "Uwb"@,
        }
    }

    /// The variant's name, as the command line prints it.
    pub fn to_string(&self) -> (r: String)
        ensures
            r@ == self.name(),
    {
        let mut s = String::new();
        match self {
            RadioType::Ble => push_str(&mut s, "Ble"),
            RadioType::Classic => push_str(&mut s, "Classic"),
            RadioType::Wifi => push_str(&mut s, "Wifi"),
            RadioType::Uwb => push_str(&mut s, "Uwb"),
        }
        assert(s@ =~= self.name());
        s
    }
}

/// Whether a command turns a radio up or down.
#[derive(Clone, Copy, Debug, PartialEq, Eq, Structural)]
pub enum UpDownStatus {
    Up,
    Down,
}

impl UpDownStatus {
    /// The variant's name.
    pub open spec fn name(self) -> Seq<char> {
        match self {
            UpDownStatus::Up => "Up"@,
            UpDownStatus::Down => "Down"@,
        }
    }

    /// The variant's name, as the command line prints it.
    pub fn to_string(&self) -> (r: String)
        ensures
            r@ == self.name(),
    {
        let mut s = String::new();
        match self {
            UpDownStatus::Up => push_str(&mut s, "Up"),
            UpDownStatus::Down => push_str(&mut s, "Down"),
        }
        assert(s@ =~= self.name());
        s
    }
}

/// Whether a command turns packet capture on or off.
#[derive(Clone, Copy, Debug, PartialEq, Eq, Structural)]
pub enum OnOffState {
    On,
    Off,
}

/// Controls the radio state of a device.
#[derive(Debug)]
pub struct Radio {
    pub radio_type: RadioType,
    pub status: UpDownStatus,
    pub name: String,
}

/// Displays the devices.
#[derive(Debug)]
pub struct Devices {
    /// Print the devices every second.
    pub continuous: bool,
}

/// Controls the packet capture of a device.
#[derive(Debug)]
pub struct Capture {
    pub state: OnOffState,
    pub name: String,
}

/// Lists the packet captures that match all patterns.
#[derive(Debug)]
pub struct ListPcap {
    pub patterns: Vec<String>,
}

/// Turns packet capture on or off for the captures that match all patterns.
#[derive(Debug)]
pub struct PatchPcap {
    pub state: OnOffState,
    pub patterns: Vec<String>,
}

/// Downloads the captures that match all patterns.
#[derive(Debug)]
pub struct GetPcap {
    pub patterns: Vec<String>,
    /// The directory to store the captures in.
    pub location: Option<String>,
    /// The names of the files written.
    pub filenames: Vec<String>,
}

/// The packet capture subcommands.
#[derive(Debug)]
pub enum Pcap {
    List(ListPcap),
    Patch(PatchPcap),
    Get(GetPcap),
}

/// Sets the position of a device. The coordinates are 32-bit floats, held
/// here as their bit patterns (`f32::to_bits`).
#[derive(Debug)]
pub struct Move {
    pub name: String,
    pub x_bits: u32,
    pub y_bits: u32,
    /// The height, where one was given.
    pub z_bits: Option<u32>,
}

/// The commands of the command line.
#[derive(Debug)]
pub enum Command {
    /// Prints the version.
    Version,
    Radio(Radio),
    Move(Move),
    Devices(Devices),
    Capture(Capture),
    /// Resets the scene.
    Reset,
    /// Opens the web interface; sends no request.
    Gui,
    Pcap(Pcap),
}

impl Command {
    /// The frontend method that carries a command: the device patch for
    /// radio, position and capture changes, the listing for devices, one
    /// method per capture subcommand; none for the web interface.
    pub open spec fn method_of(&self) -> Option<GrpcMethod> {
        match self {
            Command::Version => Some(GrpcMethod::GetVersion),
            Command::Radio(_) => Some(GrpcMethod::PatchDevice),
            Command::Move(_) => Some(GrpcMethod::PatchDevice),
            Command::Devices(_) => Some(GrpcMethod::ListDevice),
            Command::Capture(_) => Some(GrpcMethod::PatchDevice),
            Command::Reset => Some(GrpcMethod::Reset),
            Command::Pcap(Pcap::List(_)) => Some(GrpcMethod::ListCapture),
            Command::Pcap(Pcap::Get(_)) => Some(GrpcMethod::GetCapture),
            Command::Pcap(Pcap::Patch(_)) => Some(GrpcMethod::PatchCapture),
            Command::Gui => None,
        }
    }

    /// The frontend method that carries the command (see `method_of`).
    pub fn grpc_method(&self) -> (r: GrpcMethod)
        requires
            !(self is Gui),
        ensures
            self.method_of() == Some(r),
    {
        match self {
            Command::Version => GrpcMethod::GetVersion,
            Command::Radio(_) => GrpcMethod::PatchDevice,
            Command::Move(_) => GrpcMethod::PatchDevice,
            Command::Devices(_) => GrpcMethod::ListDevice,
            Command::Capture(_) => GrpcMethod::PatchDevice,
            Command::Reset => GrpcMethod::Reset,
            Command::Pcap(cmd) => match cmd {
                Pcap::List(_) => GrpcMethod::ListCapture,
                Pcap::Get(_) => GrpcMethod::GetCapture,
                Pcap::Patch(_) => GrpcMethod::PatchCapture,
            },
            // Not reached: the web interface is excluded above.
            Command::Gui => GrpcMethod::GetVersion,
        }
    }
}


/// The request that a command sends, before its encoding.
#[derive(Debug, PartialEq, Eq)]
pub enum Request {
    /// No fields: version, device list, reset, capture list.
    Empty,
    /// Patch the device `name` with one chip of `kind` whose radio
    /// `radio_type` is turned on or off.
    PatchRadio { name: String, kind: ChipKind, radio_type: RadioType, on: bool },
    /// Patch the position of the device `name` (the coordinates' bit
    /// patterns; a missing height is zero).
    PatchPosition { name: String, x_bits: u32, y_bits: u32, z_bits: u32 },
    /// Patch the device `name` with one Bluetooth chip whose capture is
    /// turned on or off.
    PatchCapture { name: String, on: bool },
}

/// The chip kind that carries a radio: Bluetooth for both of its radios.
pub open spec fn radio_kind(r: RadioType) -> ChipKind {
    match r {
        RadioType::Ble => ChipKind::Bluetooth,
        RadioType::Classic => ChipKind::Bluetooth,
        RadioType::Wifi => ChipKind::Wifi,
        RadioType::Uwb => ChipKind::Uwb,
    }
}

/// Whether a command has a request of its own to send: all but the web
/// interface and the capture download and patch, which are sent otherwise.
pub open spec fn has_request(cmd: Command) -> bool {
    match cmd {
        Command::Gui => false,
        Command::Pcap(Pcap::Get(_)) => false,
        Command::Pcap(Pcap::Patch(_)) => false,
        _ => true,
    }
}

/// Whether `r` is the request of `cmd`.
pub open spec fn request_of(cmd: Command, r: Request) -> bool {
    match cmd {
        Command::Radio(c) => r matches Request::PatchRadio { name, kind, radio_type, on } && name@
            == c.name@ && kind == radio_kind(c.radio_type) && radio_type == c.radio_type && on == (
        c.status == UpDownStatus::Up),
        Command::Move(c) => r matches Request::PatchPosition { name, x_bits, y_bits, z_bits }
            && name@ == c.name@ && x_bits == c.x_bits && y_bits == c.y_bits && z_bits == (
        match c.z_bits {
            Some(z) => z,
            None => 0,
        }),
        Command::Capture(c) => r matches Request::PatchCapture { name, on } && name@ == c.name@
            && on == (c.state == OnOffState::On),
        _ => r is Empty,
    }
}

impl Command {
    /// The request of the command (see `request_of`).
    pub fn get_request(&self) -> (r: Request)
        requires
            has_request(*self),
        ensures
            request_of(*self, r),
    {
        match self {
            Command::Radio(c) => {
                let kind = match c.radio_type {
                    RadioType::Ble => ChipKind::Bluetooth,
                    RadioType::Classic => ChipKind::Bluetooth,
                    RadioType::Wifi => ChipKind::Wifi,
                    RadioType::Uwb => ChipKind::Uwb,
                };
                let on = match c.status {
                    UpDownStatus::Up => true,
                    UpDownStatus::Down => false,
                };
                Request::PatchRadio { name: c.name.clone(), kind, radio_type: c.radio_type, on }
            },
            Command::Move(c) => {
                let z_bits = match c.z_bits {
                    Some(z) => z,
                    None => 0,
                };
                Request::PatchPosition {
                    name: c.name.clone(),
                    x_bits: c.x_bits,
                    y_bits: c.y_bits,
                    z_bits,
                }
            },
            Command::Capture(c) => {
                let on = match c.state {
                    OnOffState::On => true,
                    OnOffState::Off => false,
                };
                Request::PatchCapture { name: c.name.clone(), on }
            },
            _ => Request::Empty,
        }
    }
}

} // verus!
