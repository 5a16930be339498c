use netsim::device_list::{device_response_text, ChipRadios, DeviceChip, DeviceInfo};
use netsim::display::{ChipRadio, State};

fn radio(state: State, rx_count: i32, tx_count: i32) -> ChipRadio {
    ChipRadio { state, rx_count, tx_count }
}

fn devices() -> Vec<DeviceInfo> {
    vec![
        DeviceInfo {
            name: "emulator-5554".to_string(),
            position: "1.00, 2.50, 0.00".to_string(),
            at_origin: false,
            chips: vec![
                DeviceChip {
                    capture: State::On,
                    radios: ChipRadios::Bt {
                        low_energy: Some(radio(State::Off, 1, 2)),
                        classic: Some(radio(State::On, 3, 4)),
                    },
                },
                DeviceChip { capture: State::Off, radios: ChipRadios::Wifi(radio(State::Off, 5, 6)) },
            ],
        },
        DeviceInfo {
            name: "beacon".to_string(),
            position: "0.00, 0.00, 0.00".to_string(),
            at_origin: true,
            chips: vec![DeviceChip { capture: State::Unknown, radios: ChipRadios::Other }],
        },
    ]
}

#[test]
fn test_device_response_verbose() {
    let row = |label: &str, state: &str, rx: i32, tx: i32, capture: &str| {
        format!("{:2}{:9}{:5}| rx_count: {:9?} | tx_count: {:9?} | capture: {}\n", "", label, state, rx, tx, capture)
    };
    let expected = format!("List of attached devices:\n{:16}  position: {}\n", "emulator-5554", "1.00, 2.50, 0.00")
        + &row("ble:", "down", 1, 2, "on")
        + &row("classic:", "up", 3, 4, "on")
        + &row("wifi:", "down", 5, 6, "off")
        + &format!("{:16}  position: {}\n", "beacon", "0.00, 0.00, 0.00")
        + "  Unknown chip: down  \n";
    assert_eq!(device_response_text(&devices(), true), expected);
    assert_eq!(device_response_text(&vec![], true), "No attached devices found.\n");
}

#[test]
fn test_device_response_short() {
    let expected = format!(
        "{:16}  position: {}{:2}{:9}{:5}{:2}capture: on{:2}{:9}{:5}\n{:16}  \n",
        "emulator-5554", "1.00, 2.50, 0.00", "", "ble:", "down", "", "", "wifi:", "down", "beacon"
    );
    assert_eq!(device_response_text(&devices(), false), expected);
    assert_eq!(device_response_text(&vec![], false), "");
}
