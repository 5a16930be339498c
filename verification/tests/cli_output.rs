use netsim::cli::{Capture, Command, ListPcap, Move, OnOffState, PatchPcap, Pcap, Radio, RadioType, UpDownStatus};
use netsim::cli_output::ResponseInfo;
use netsim::device_list::{device_response_text, DeviceInfo};
use netsim::display::State;
use netsim::response::{ChipKind, PcapInfo};

fn pcap(id: i32, chip_kind: ChipKind, name: &str, state: State, size: u64) -> PcapInfo {
    PcapInfo { id, chip_kind, device_name: name.to_string(), state, size }
}

#[test]
fn test_response_text_lines() {
    assert_eq!(
        Command::Version.response_text(&ResponseInfo::Version("1.2.3".to_string()), false, ""),
        "Netsim version: 1.2.3\n"
    );
    let radio = Command::Radio(Radio { radio_type: RadioType::Wifi, status: UpDownStatus::Down, name: "d1".to_string() });
    assert_eq!(radio.response_text(&ResponseInfo::Empty, true, ""), "Radio Wifi is Down for d1\n");
    assert_eq!(radio.response_text(&ResponseInfo::Empty, false, ""), "");
    let mv = Command::Move(Move { name: "d1".to_string(), x_bits: 1.0f32.to_bits(), y_bits: 2.0f32.to_bits(), z_bits: None });
    let coordinates = format!("x: {:.2}, y: {:.2}, z: {:.2}", 1.0f32, 2.0f32, 0.0f32);
    assert_eq!(mv.response_text(&ResponseInfo::Empty, true, &coordinates), "Moved device:d1 to x: 1.00, y: 2.00, z: 0.00\n");
    let capture = Command::Capture(Capture { state: OnOffState::On, name: "d2".to_string() });
    assert_eq!(capture.response_text(&ResponseInfo::Empty, true, ""), "Turned on packet capture for d2\n");
    assert_eq!(Command::Reset.response_text(&ResponseInfo::Empty, true, ""), "All devices have been reset.\n");
    assert_eq!(Command::Reset.response_text(&ResponseInfo::Empty, false, ""), "");
    let patch = Command::Pcap(Pcap::Patch(PatchPcap { state: OnOffState::Off, patterns: vec![] }));
    assert_eq!(patch.response_text(&ResponseInfo::Empty, true, ""), "Patched Pcap state to off\n");
    let devices: Vec<DeviceInfo> = vec![];
    let cmd = Command::Devices(netsim::cli::Devices { continuous: false });
    assert_eq!(
        cmd.response_text(&ResponseInfo::Devices(vec![]), true, ""),
        device_response_text(&devices, true)
    );
}

#[test]
fn test_response_text_pcap_table() {
    let pcaps = vec![
        pcap(4001, ChipKind::Bluetooth, "device 1", State::On, 12345),
        pcap(4002, ChipKind::Wifi, "a long device name", State::Off, 7),
    ];
    let list = Command::Pcap(Pcap::List(ListPcap { patterns: vec![] }));
    let row = |id: &str, name: &str, kind: &str, state: &str, size: &str, nw: usize, sw: usize| {
        format!("{:4} | {:nw$} | {:11} | {:7} | {:sw$} |\n", id, name, kind, state, size, nw = nw, sw = sw)
    };
    let size_row = |id: &str, name: &str, kind: &str, state: &str, size: u64, nw: usize, sw: usize| {
        format!("{:4} | {:nw$} | {:11} | {:7} | {:sw$} |\n", id, name, kind, state, size, nw = nw, sw = sw)
    };
    let expected = "List of Pcaps:\n".to_string()
        + &row("ID", "Device Name", "Chip Kind", "State", "Size", 18, 5)
        + &size_row("4001", "device 1", "BLUETOOTH", "on", 12345, 18, 5)
        + &size_row("4002", "a long device name", "WIFI", "off", 7, 18, 5);
    assert_eq!(list.response_text(&ResponseInfo::Pcaps(pcaps), true, ""), expected);

    let pcaps = vec![
        pcap(4001, ChipKind::Bluetooth, "device 1", State::On, 3),
        pcap(4002, ChipKind::Wifi, "device 2", State::Off, 7),
    ];
    let patterns = vec!["wifi".to_string()];
    let list = Command::Pcap(Pcap::List(ListPcap { patterns: patterns.clone() }));
    let expected = format!("List of Pcaps matching pattern(s) `{:?}`:\n", patterns)
        + &row("ID", "Device Name", "Chip Kind", "State", "Size", 11, 4)
        + &size_row("4002", "device 2", "WIFI", "off", 7, 11, 4);
    assert_eq!(list.response_text(&ResponseInfo::Pcaps(pcaps), false, ""), expected);

    let empty = Command::Pcap(Pcap::List(ListPcap { patterns: vec![] }));
    assert_eq!(empty.response_text(&ResponseInfo::Pcaps(vec![]), true, ""), "No available Pcap found.\n");
    assert_eq!(empty.response_text(&ResponseInfo::Pcaps(vec![]), false, ""), "");
}
