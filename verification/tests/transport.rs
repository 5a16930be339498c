use netsim::response::ChipKind;
use netsim::transport::{fd_chips, StartupChip, StartupChipKind, StartupDevice, StartupInfo, WirelessParams};

fn chip(kind: StartupChipKind, fd_in: u32, fd_out: u32) -> StartupChip {
    StartupChip {
        kind,
        id: None,
        manufacturer: None,
        product_name: None,
        fd_in,
        fd_out,
        loopback: None,
        address: None,
    }
}

/// A startup description of two devices with two chips each.
fn sample() -> StartupInfo {
    StartupInfo {
        devices: vec![
            StartupDevice {
                name: "emulator-5554".to_string(),
                chips: vec![chip(StartupChipKind::Wifi, 1, 2), chip(StartupChipKind::Bluetooth, 20, 21)],
            },
            StartupDevice {
                name: "emulator-5555".to_string(),
                chips: vec![chip(StartupChipKind::Bluetooth, 3, 4), chip(StartupChipKind::Uwb, 5, 6)],
            },
        ],
    }
}

#[test]
fn test_fd_chips_all_supported() {
    let (chips, complete) = fd_chips(&sample());
    assert!(complete);
    assert_eq!(chips.len(), 4);
    assert_eq!(chips[0].device_guid, "fd-device-0");
    assert_eq!(chips[0].device_name, "emulator-5554");
    assert_eq!(chips[0].create_params.kind, ChipKind::Wifi);
    assert!(matches!(chips[0].wireless, WirelessParams::Wifi));
    assert_eq!((chips[0].fd_in, chips[0].fd_out), (1, 2));
    assert_eq!(chips[1].create_params.kind, ChipKind::Bluetooth);
    assert_eq!((chips[1].fd_in, chips[1].fd_out), (20, 21));
    assert_eq!(chips[2].device_guid, "fd-device-1");
    assert_eq!(chips[2].device_name, "emulator-5555");
    assert_eq!(chips[3].create_params.kind, ChipKind::Uwb);
    assert!(matches!(&chips[3].wireless, WirelessParams::Uwb { address } if address.is_empty()));
    assert_eq!(chips[3].create_params.name.as_deref(), Some(""));
    assert_eq!(chips[3].create_params.manufacturer, "");
}

#[test]
fn test_fd_chips_fields() {
    let info = StartupInfo {
        devices: vec![StartupDevice {
            name: "d".to_string(),
            chips: vec![StartupChip {
                kind: StartupChipKind::Bluetooth,
                id: Some("bt0".to_string()),
                manufacturer: Some("m".to_string()),
                product_name: Some("p".to_string()),
                fd_in: 7,
                fd_out: 8,
                loopback: Some(true),
                address: Some("00:11".to_string()),
            }],
        }],
    };
    let (chips, complete) = fd_chips(&info);
    assert!(complete);
    let c = &chips[0];
    assert_eq!(c.create_params.name.as_deref(), Some("bt0"));
    assert_eq!(c.create_params.address, "00:11");
    assert_eq!(c.create_params.manufacturer, "m");
    assert_eq!(c.create_params.product_name, "p");
    assert!(matches!(&c.wireless, WirelessParams::Bluetooth { address } if address == "00:11"));
}

#[test]
fn test_fd_chips_stop_at_unknown_kind() {
    let mut info = sample();
    info.devices[1].chips[0].kind = StartupChipKind::Unknown;
    let (chips, complete) = fd_chips(&info);
    assert!(!complete);
    assert_eq!(chips.len(), 2);
    assert_eq!(chips[1].fd_in, 20);
}
