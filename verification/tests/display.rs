use netsim::display::{
    AdvertiseData, AdvertiseSettings, BluetoothBeacon, ChipData, ChipModel, ChipRadio, DeviceModel, Displayer,
    State,
};

fn radio(state: State, rx_count: i32, tx_count: i32) -> ChipRadio {
    ChipRadio { state, rx_count, tx_count }
}

#[test]
fn test_state_text_indented() {
    let mut d = Displayer::new(&State::On, false);
    assert_eq!(d.indent(1).state_text(), "  up       ");
    assert_eq!(Displayer::new(&State::Off, false).state_text(), "down     ");
    assert_eq!(Displayer::new(&State::Unknown, true).state_text(), "unknown  ");
    assert!(!Displayer::new(&State::On, false).state_text().ends_with('\n'));
}

#[test]
fn test_radio_text() {
    let r = radio(State::On, 3, -1);
    assert_eq!(Displayer::new(&r, false).radio_text(), "up       ");
    assert_eq!(
        Displayer::new(&r, true).radio_text(),
        format!("{:9}| rx_count: {:9} | tx_count: {:9}", "up", 3, -1)
    );
}

#[test]
fn test_chip_text_radios() {
    let bt = ChipModel {
        name: "bt".to_string(),
        chip: Some(ChipData::Bt { low_energy: Some(radio(State::Off, 0, 0)), classic: Some(radio(State::On, 1, 2)) }),
    };
    assert_eq!(Displayer::new(&bt, false).chip_text(), format!("\n{:9}{:9}", "ble: ", "down"));
    assert_eq!(
        Displayer::new(&bt, true).chip_text(),
        format!(
            "\n{:9}{:9}| rx_count: {:9} | tx_count: {:9}\n{:9}{:9}| rx_count: {:9} | tx_count: {:9}",
            "ble: ", "down", 0, 0, "classic: ", "up", 1, 2
        )
    );
    let wifi = ChipModel { name: "w".to_string(), chip: Some(ChipData::Wifi(radio(State::On, 3, -1))) };
    assert_eq!(Displayer::new(&wifi, false).chip_text(), "");
    let mut d = Displayer::new(&wifi, true);
    assert_eq!(
        d.indent(1).chip_text(),
        format!("\n{:2}{:9}{:9}| rx_count: {:9} | tx_count: {:9}", "", "wifi: ", "up", 3, -1)
    );
    let uwb = ChipModel { name: "u".to_string(), chip: Some(ChipData::Uwb(radio(State::Off, 0, 0))) };
    assert_eq!(Displayer::new(&uwb, false).chip_text(), format!("\n{:9}{:9}", "uwb: ", "down"));
    let unknown = ChipModel { name: "x".to_string(), chip: None };
    assert_eq!(Displayer::new(&unknown, false).chip_text(), "");
    assert_eq!(Displayer::new(&unknown, true).chip_text(), "\nUnknown chip");
}

#[test]
fn test_chip_text_beacon() {
    let beacon = BluetoothBeacon {
        address: "be:ac:01:be:ef:00".to_string(),
        settings: Some(AdvertiseSettings { tx_power_level: -3, interval: 1280 }),
        adv_data: Some(AdvertiseData {
            include_device_name: true,
            include_tx_power_level: false,
            manufacturer_data: vec![1, 2, 3, 4],
        }),
        low_energy: Some(radio(State::On, 0, 5)),
    };
    let chip = ChipModel { name: "b1".to_string(), chip: Some(ChipData::BleBeacon(beacon)) };
    assert_eq!(Displayer::new(&chip, false).chip_text(), "");
    let expected = format!(
        "\n{:25} {:9}| rx_count: {:9} | tx_count: {:9}\n{:2}address: {:16}\n{:2}advertise settings:\n{:6}{:25}: {} dBm\n{:6}{:25}: {} ms\n{:2}advertise packet data:\n{:6}{:25}: {}\n{:6}{:25}: {}",
        "beacon-ble (b1):", "up", 0, 5,
        "", "be:ac:01:be:ef:00",
        "",
        "", "tx power level", -3,
        "", "interval", 1280,
        "",
        "", "include device name", true,
        "", "manufacturer data bytes", 4
    );
    assert_eq!(Displayer::new(&chip, true).chip_text(), expected);

    let quiet = BluetoothBeacon {
        address: "a".to_string(),
        settings: Some(AdvertiseSettings { tx_power_level: 0, interval: 0 }),
        adv_data: None,
        low_energy: Some(radio(State::Off, 0, 0)),
    };
    let chip = ChipModel { name: "b2".to_string(), chip: Some(ChipData::BleBeacon(quiet)) };
    assert_eq!(Displayer::new(&chip, false).chip_text(), format!("\n{:25} {:9}", "beacon-ble (b2):", "down"));
    assert_eq!(
        Displayer::new(&chip, true).chip_text(),
        format!("\n{:25} {:9}| rx_count: {:9} | tx_count: {:9}\n{:2}address: {:16}", "beacon-ble (b2):", "down", 0, 0, "", "a")
    );
}

#[test]
fn test_device_and_list_text() {
    let d1 = DeviceModel {
        name: "dev1".to_string(),
        position: "1.00, 0.00, 0.00".to_string(),
        at_origin: false,
        chips: vec![
            ChipModel { name: "w".to_string(), chip: Some(ChipData::Wifi(radio(State::Off, 0, 0))) },
            ChipModel { name: "u".to_string(), chip: Some(ChipData::Uwb(radio(State::On, 0, 0))) },
        ],
    };
    let d2 = DeviceModel { name: "dev2".to_string(), position: "0.00, 0.00, 0.00".to_string(), at_origin: true, chips: vec![] };
    let expected1 = format!("{:9}  position: {}\n{:2}{:9}{:9}\n", "dev1", "1.00, 0.00, 0.00", "", "wifi: ", "down");
    assert_eq!(Displayer::new(&d1, false).device_text(), expected1);
    assert_eq!(Displayer::new(&d2, false).device_text(), format!("{:9} ", "dev2"));
    assert_eq!(Displayer::new(&d2, true).device_text(), format!("{:9}  position: {}", "dev2", "0.00, 0.00, 0.00"));
    let list = vec![d1, d2];
    assert_eq!(Displayer::new(&list, false).devices_text(), expected1 + "\n" + &format!("{:9} ", "dev2"));
}

#[test]
fn test_displayed_values_do_not_end_in_newline() {
    let beacon = BluetoothBeacon {
        address: "a".to_string(),
        settings: Some(AdvertiseSettings { tx_power_level: 1, interval: 0 }),
        adv_data: Some(AdvertiseData { include_device_name: true, include_tx_power_level: false, manufacturer_data: vec![] }),
        low_energy: Some(radio(State::Off, 0, 0)),
    };
    let chip = ChipModel { name: "b3".to_string(), chip: Some(ChipData::BleBeacon(beacon)) };
    for verbose in [false, true] {
        let t = Displayer::new(&chip, verbose).chip_text();
        assert!(!t.ends_with('\n'), "{t:?}");
    }
    let t = Displayer::new(&chip, true).chip_text();
    assert!(t.ends_with(&format!("{:6}{:25}: {}", "", "include device name", true)));
}
