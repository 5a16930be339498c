use netsim::startup::Chip_ChipKind;
use netsim::transport::response_bytes;
use netsim::beacon::{parse_addr, parse_address, AddressError};
use netsim::cli::{
    Capture, Command, Devices, GetPcap, ListPcap, Move, OnOffState, PatchPcap, Pcap, Radio,
    RadioType, Request, UpDownStatus,
};
use netsim::grpc_client::GrpcMethod;
use netsim::devices::{
    check_create_device, chip_create_params, find_patch_target, test_beacon_create, AddChipResultCxx, ChipCreateKind,
    ChipCreateModel, DeviceCreateModel,
};
use netsim::response::ChipKind;
use netsim::transport::WirelessParams;
use netsim::display::Displayer;
use netsim::pcap::{append_record_at, write_pcap_header, LinkType, PacketDirection};
use netsim::service::ServiceParams;

#[test]
fn test_radio_names() {
    assert_eq!(RadioType::Ble.to_string(), "Ble");
    assert_eq!(RadioType::Classic.to_string(), "Classic");
    assert_eq!(RadioType::Wifi.to_string(), "Wifi");
    assert_eq!(RadioType::Uwb.to_string(), "Uwb");
    assert_eq!(UpDownStatus::Up.to_string(), "Up");
    assert_eq!(UpDownStatus::Down.to_string(), "Down");
}

#[test]
fn test_displayer_indent() {
    let mut d = Displayer::new(7u8, true);
    assert_eq!(d.indent, 0);
    let r = d.indent(3);
    assert_eq!(r.indent, 6);
    assert_eq!(r.value, 7);
    assert!(r.verbose);
}

#[test]
fn test_add_chip_result() {
    let ok = AddChipResultCxx::added(3, 9);
    assert_eq!(ok.get_device_id(), 3);
    assert_eq!(ok.get_chip_id(), 9);
    assert!(!ok.is_error());
    let err = AddChipResultCxx::error();
    assert!(err.is_error());
    assert_eq!(err.get_device_id(), u32::MAX);
    assert_eq!(err.get_chip_id(), u32::MAX);
}

#[test]
fn test_service_params() {
    let p = ServiceParams::new("fd".to_string(), true, false, 6402, 1, false, 0);
    assert_eq!(p.fd_startup_str, "fd");
    assert!(p.no_cli_ui);
    assert!(!p.no_web_ui);
    assert_eq!(p.hci_port, 6402);
    assert_eq!(p.instance_num, 1);
}

#[test]
fn test_parse_address_errors() {
    assert_eq!(parse_address("zz"), Err(AddressError::InvalidHex));
    assert_eq!(parse_address("01:02:03:04:05:06:07"), Err(AddressError::TooLarge));
    assert_eq!(parse_addr("zz").err().unwrap(), "failed to parse address: invalid hex");
    assert_eq!(
        parse_addr("01:02:03:04:05:06:07").err().unwrap(),
        "failed to parse address: address must be smaller than 6 bytes"
    );
}

#[test]
fn test_pcap_header_and_record_layout() {
    let mut out = Vec::new();
    assert_eq!(write_pcap_header(LinkType::Ieee802_11RadioTap, &mut out), 24);
    assert_eq!(&out[20..24], &[0, 0, 0, 127]);
    let n = append_record_at(0x0102_0304, 999_999, &mut out, PacketDirection::ControllerToHost, &[9, 8]);
    assert_eq!(n, 22);
    assert_eq!(
        &out[24..],
        &[1, 2, 3, 4, 0, 0x0f, 0x42, 0x3f, 0, 0, 0, 6, 0, 0, 0, 6, 0, 0, 0, 1, 9, 8]
    );
}

#[test]
fn test_response_bytes() {
    assert_eq!(response_bytes(4, &[14, 4]), vec![4, 14, 4]);
    assert_eq!(response_bytes(0, &[14, 4]), vec![14, 4]);
    assert_eq!(response_bytes(2, &[]), vec![2]);
}

#[test]
fn test_chip_kind_values() {
    assert_eq!(Chip_ChipKind::from_i32(2), Some(Chip_ChipKind::WIFI));
    assert_eq!(Chip_ChipKind::from_i32(4), None);
    assert_eq!(Chip_ChipKind::from_i32(-1), None);
    assert_eq!(Chip_ChipKind::UWB.value(), 3);
    assert_eq!(
        Chip_ChipKind::values(),
        vec![Chip_ChipKind::UNSPECIFIED, Chip_ChipKind::BLUETOOTH, Chip_ChipKind::WIFI, Chip_ChipKind::UWB]
    );
    assert_eq!(Chip_ChipKind::default(), Chip_ChipKind::UNSPECIFIED);
}

#[test]
fn test_command_grpc_method() {
    let radio = Command::Radio(Radio {
        radio_type: RadioType::Ble,
        status: UpDownStatus::Up,
        name: "a".to_string(),
    });
    assert_eq!(radio.grpc_method(), GrpcMethod::PatchDevice);
    let mv = Command::Move(Move {
        name: "a".to_string(),
        x_bits: 1.5f32.to_bits(),
        y_bits: 2.0f32.to_bits(),
        z_bits: None,
    });
    assert_eq!(mv.grpc_method(), GrpcMethod::PatchDevice);
    assert_eq!(Command::Version.grpc_method(), GrpcMethod::GetVersion);
    assert_eq!(Command::Reset.grpc_method(), GrpcMethod::Reset);
    assert_eq!(Command::Devices(Devices { continuous: false }).grpc_method(), GrpcMethod::ListDevice);
    let capture = Command::Capture(Capture { state: OnOffState::On, name: "1000".to_string() });
    assert_eq!(capture.grpc_method(), GrpcMethod::PatchDevice);
    let list = Command::Pcap(Pcap::List(ListPcap { patterns: vec![] }));
    assert_eq!(list.grpc_method(), GrpcMethod::ListCapture);
    let patch = Command::Pcap(Pcap::Patch(PatchPcap { state: OnOffState::Off, patterns: vec![] }));
    assert_eq!(patch.grpc_method(), GrpcMethod::PatchCapture);
    let get = Command::Pcap(Pcap::Get(GetPcap { patterns: vec![], location: None, filenames: vec![] }));
    assert_eq!(get.grpc_method(), GrpcMethod::GetCapture);
}

#[test]
fn test_chip_create_params_and_result() {
    let (p, w) = chip_create_params("BLUETOOTH", "00:11", "", "m", "p").unwrap();
    assert_eq!(p.kind, ChipKind::Bluetooth);
    assert_eq!(p.address, "00:11");
    assert!(p.name.is_none());
    assert_eq!((p.manufacturer.as_str(), p.product_name.as_str()), ("m", "p"));
    assert!(matches!(w, WirelessParams::Bluetooth { address } if address == "00:11"));
    let (p, w) = chip_create_params("WIFI", "a", "wlan0", "", "").unwrap();
    assert_eq!(p.kind, ChipKind::Wifi);
    assert_eq!(p.name.as_deref(), Some("wlan0"));
    assert!(matches!(w, WirelessParams::Wifi));
    let (p, w) = chip_create_params("UWB", "u", "", "", "").unwrap();
    assert_eq!(p.kind, ChipKind::Uwb);
    assert!(matches!(w, WirelessParams::Uwb { address } if address == "u"));
    assert!(chip_create_params("NFC", "", "", "", "").is_none());
    assert!(chip_create_params("wifi", "", "", "", "").is_none());
    let ok = AddChipResultCxx::from_result(Ok((4, 1001)));
    assert_eq!((ok.get_device_id(), ok.get_chip_id(), ok.is_error()), (4, 1001, false));
    let err = AddChipResultCxx::from_result(Err("no".to_string()));
    assert_eq!((err.get_device_id(), err.get_chip_id(), err.is_error()), (u32::MAX, u32::MAX, true));
}

#[test]
fn test_command_get_request() {
    let radio = |radio_type, status| {
        Command::Radio(Radio { radio_type, status, name: "test_device".to_string() })
    };
    assert_eq!(
        radio(RadioType::Ble, UpDownStatus::Up).get_request(),
        Request::PatchRadio {
            name: "test_device".to_string(),
            kind: ChipKind::Bluetooth,
            radio_type: RadioType::Ble,
            on: true
        }
    );
    assert_eq!(
        radio(RadioType::Classic, UpDownStatus::Down).get_request(),
        Request::PatchRadio {
            name: "test_device".to_string(),
            kind: ChipKind::Bluetooth,
            radio_type: RadioType::Classic,
            on: false
        }
    );
    assert_eq!(
        radio(RadioType::Wifi, UpDownStatus::Up).get_request(),
        Request::PatchRadio {
            name: "test_device".to_string(),
            kind: ChipKind::Wifi,
            radio_type: RadioType::Wifi,
            on: true
        }
    );
    assert_eq!(
        radio(RadioType::Uwb, UpDownStatus::Down).get_request(),
        Request::PatchRadio {
            name: "test_device".to_string(),
            kind: ChipKind::Uwb,
            radio_type: RadioType::Uwb,
            on: false
        }
    );
    let mv = Command::Move(Move { name: "1".to_string(), x_bits: 1.1f32.to_bits(), y_bits: 2.0f32.to_bits(), z_bits: None });
    assert_eq!(
        mv.get_request(),
        Request::PatchPosition { name: "1".to_string(), x_bits: 1.1f32.to_bits(), y_bits: 2.0f32.to_bits(), z_bits: 0.0f32.to_bits() }
    );
    let capture = Command::Capture(Capture { state: OnOffState::On, name: "1000".to_string() });
    assert_eq!(capture.get_request(), Request::PatchCapture { name: "1000".to_string(), on: true });
    assert_eq!(Command::Version.get_request(), Request::Empty);
    assert_eq!(Command::Reset.get_request(), Request::Empty);
    assert_eq!(Command::Devices(Devices { continuous: false }).get_request(), Request::Empty);
    assert_eq!(Command::Pcap(Pcap::List(ListPcap { patterns: vec![] })).get_request(), Request::Empty);
}

#[test]
fn test_find_patch_target() {
    let devices = vec![
        (1, "emulator-5554".to_string()),
        (2, "emulator-5555".to_string()),
        (3, "phone".to_string()),
        (4, "phone-2".to_string()),
    ];
    assert_eq!(find_patch_target(&devices, Some(3), "anything"), Ok(3));
    assert_eq!(find_patch_target(&devices, Some(9), ""), Err("No such device with id 9".to_string()));
    // An exact name wins over other names that hold it.
    assert_eq!(find_patch_target(&devices, None, "phone"), Ok(3));
    // A unique substring.
    assert_eq!(find_patch_target(&devices, None, "5555"), Ok(2));
    assert_eq!(
        find_patch_target(&devices, None, "emulator"),
        Err("Multiple ambiguous matches were found with substring emulator".to_string())
    );
    assert_eq!(find_patch_target(&devices, None, "tablet"), Err("No such device with name tablet".to_string()));
}

fn beacon_chip(name: &str) -> ChipCreateModel {
    let device = test_beacon_create(0);
    let mut chip = device.chips.into_iter().next().unwrap();
    chip.name = name.to_string();
    chip
}

#[test]
fn test_check_create_device() {
    let guids = vec!["device-0".to_string()];
    let device = |name: &str, chips: Vec<ChipCreateModel>| DeviceCreateModel { name: name.to_string(), chips };
    assert_eq!(check_create_device(&device("", vec![beacon_chip("b")]), &guids), Ok(()));
    assert_eq!(check_create_device(&device("new", vec![beacon_chip("b")]), &guids), Ok(()));
    assert_eq!(
        check_create_device(&device("device-0", vec![beacon_chip("b")]), &guids),
        Err("failed to create device: device already exists".to_string())
    );
    assert_eq!(
        check_create_device(&device("x", vec![]), &guids),
        Err("failed to create device: device must contain at least 1 chip".to_string())
    );
    let other = ChipCreateModel { name: "bt".to_string(), kind: ChipKind::Bluetooth, chip: Some(ChipCreateKind::Other) };
    let none = ChipCreateModel { name: "nothing".to_string(), kind: ChipKind::Unspecified, chip: None };
    assert_eq!(
        check_create_device(&device("x", vec![beacon_chip("b"), other, none]), &guids),
        Err("failed to create device: chip bt was not a built-in".to_string())
    );
    let none = ChipCreateModel { name: "nothing".to_string(), kind: ChipKind::Unspecified, chip: None };
    assert_eq!(
        check_create_device(&device("x", vec![none]), &guids),
        Err("failed to create device: chip nothing was missing a radio".to_string())
    );
}

#[test]
fn test_test_beacon_create() {
    for (idx, hex) in [(0u32, "00"), (1, "01"), (15, "0f"), (16, "10"), (255, "ff"), (4096, "1000")] {
        let d = test_beacon_create(idx);
        assert_eq!(d.name, format!("device-{idx}"));
        assert_eq!(d.chips.len(), 1);
        assert_eq!(d.chips[0].name, format!("beacon-{idx}"));
        assert_eq!(d.chips[0].kind, ChipKind::BluetoothBeacon);
        match &d.chips[0].chip {
            Some(ChipCreateKind::BleBeacon(b)) => {
                assert_eq!(b.address, format!("be:ac:01:be:ef:{:02x}", idx));
                assert_eq!(b.address, format!("be:ac:01:be:ef:{hex}"));
                assert_eq!(b.interval_ms, Some(1280));
                assert!(b.scannable);
                assert!(b.adv_data.include_device_name && b.adv_data.include_tx_power_level);
                assert_eq!(b.adv_data.manufacturer_data, vec![1, 2, 3, 4]);
            }
            _ => panic!("a beacon chip"),
        }
    }
}
