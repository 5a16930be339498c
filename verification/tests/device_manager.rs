use netsim::chip::{ChipManager, CreateParams, INITIAL_CHIP_ID};
use netsim::device_manager::{DeviceManager, INITIAL_DEVICE_ID};
use netsim::response::ChipKind;

struct TestChipParameters {
    device_guid: String,
    device_name: String,
    chip_kind: ChipKind,
    chip_name: String,
    chip_manufacturer: String,
    chip_product_name: String,
    kind: String,
}

impl TestChipParameters {
    fn add_chip(&self, devices: &mut DeviceManager, chips: &mut ChipManager<()>) -> Result<(u32, u32), String> {
        let chip_create_params = CreateParams {
            kind: self.chip_kind,
            address: "".to_string(),
            name: Some(self.chip_name.clone()),
            manufacturer: self.chip_manufacturer.clone(),
            product_name: self.chip_product_name.clone(),
        };
        devices.add_chip(chips, &self.device_guid, &self.device_name, &chip_create_params)
    }

    fn get_or_create_device(&self, devices: &mut DeviceManager) -> u32 {
        devices
            .get_or_create_device(Some(&self.device_guid), Some(&self.device_name), false, Some(&self.kind))
            .0
    }
}

fn test_chip_1_bt() -> TestChipParameters {
    TestChipParameters {
        device_guid: "guid-fs-1".to_string(),
        device_name: "test-device-name-1".to_string(),
        chip_kind: ChipKind::Bluetooth,
        chip_name: "bt_chip_name".to_string(),
        chip_manufacturer: "netsim".to_string(),
        chip_product_name: "netsim_bt".to_string(),
        kind: "TESTDEVICE".to_string(),
    }
}

fn test_chip_1_wifi() -> TestChipParameters {
    TestChipParameters {
        device_guid: "guid-fs-1".to_string(),
        device_name: "test-device-name-1".to_string(),
        chip_kind: ChipKind::Wifi,
        chip_name: "wifi_chip_name".to_string(),
        chip_manufacturer: "netsim".to_string(),
        chip_product_name: "netsim_wifi".to_string(),
        kind: "TESTDEVICE".to_string(),
    }
}

fn test_chip_2_bt() -> TestChipParameters {
    TestChipParameters {
        device_guid: "guid-fs-2".to_string(),
        device_name: "test-device-name-2".to_string(),
        chip_kind: ChipKind::Bluetooth,
        chip_name: "bt_chip_name".to_string(),
        chip_manufacturer: "netsim".to_string(),
        chip_product_name: "netsim_bt".to_string(),
        kind: "TESTDEVICE".to_string(),
    }
}

fn registries() -> (DeviceManager, ChipManager<()>) {
    (DeviceManager::new(), ChipManager::<()>::new(INITIAL_CHIP_ID))
}

#[test]
fn test_add_chip() {
    let (mut devices, mut chips) = registries();
    let chip_params = test_chip_1_bt();
    let (device_id, chip_id) = chip_params.add_chip(&mut devices, &mut chips).unwrap();
    match devices.device(device_id) {
        Some(device) => {
            assert!(device.chips.contains(&chip_id));
            let chip = chips.get_chip(chip_id).unwrap();
            assert_eq!(chip_params.chip_kind, chip.kind);
            assert_eq!(chip_params.chip_manufacturer, chip.manufacturer);
            assert_eq!(chip_params.chip_name, chip.name);
            assert_eq!(chip_params.chip_product_name, chip.product_name);
            assert_eq!(chip_params.device_name, device.name);
        }
        None => unreachable!(),
    }
}

#[test]
fn test_get_or_create_device() {
    let (mut devices, _) = registries();
    let bt_chip_params = test_chip_1_bt();
    let device_id_1 = bt_chip_params.get_or_create_device(&mut devices);
    let wifi_chip_params = test_chip_1_wifi();
    let device_id_2 = wifi_chip_params.get_or_create_device(&mut devices);
    assert_eq!(device_id_1, device_id_2);
}

#[test]
fn test_adding_two_chips() {
    let (mut devices, mut chips) = registries();
    let bt_chip_params = test_chip_1_bt();
    let wifi_chip_params = test_chip_1_wifi();
    let bt_chip_result = bt_chip_params.add_chip(&mut devices, &mut chips).unwrap();
    let wifi_chip_result = wifi_chip_params.add_chip(&mut devices, &mut chips).unwrap();
    assert_eq!(bt_chip_result.0, wifi_chip_result.0);
    let device = devices.device(bt_chip_result.0).unwrap();
    assert_eq!(device.id, bt_chip_result.0);
    assert_eq!(device.name, bt_chip_params.device_name);
    assert_eq!(device.chips.len(), 2);
    for chip_id in device.chips.iter() {
        let chip = chips.get_chip(*chip_id).unwrap();
        assert!(chip.id == bt_chip_result.1 || chip.id == wifi_chip_result.1);
        if chip.id == bt_chip_result.1 {
            assert_eq!(chip.kind, ChipKind::Bluetooth);
        } else if chip.id == wifi_chip_result.1 {
            assert_eq!(chip.kind, ChipKind::Wifi);
        } else {
            unreachable!();
        }
    }
}

#[test]
fn test_remove_chip() {
    let (mut devices, mut chips) = registries();
    let bt_chip_params = test_chip_1_bt();
    let wifi_chip_params = test_chip_1_wifi();
    let bt_chip_2_params = test_chip_2_bt();
    let bt_chip_result = bt_chip_params.add_chip(&mut devices, &mut chips).unwrap();
    let wifi_chip_result = wifi_chip_params.add_chip(&mut devices, &mut chips).unwrap();
    let bt_chip_2_result = bt_chip_2_params.add_chip(&mut devices, &mut chips).unwrap();

    devices.remove_chip(bt_chip_result.0, bt_chip_result.1).unwrap();
    match devices.device(bt_chip_result.0) {
        Some(device) => {
            assert_eq!(device.chips.len(), 1);
            assert_eq!(chips.get_chip(device.chips[0]).unwrap().kind, ChipKind::Wifi);
            assert_eq!(device.chips[0], wifi_chip_result.1);
        }
        None => unreachable!(),
    }

    devices.remove_chip(wifi_chip_result.0, wifi_chip_result.1).unwrap();
    assert!(devices.device(wifi_chip_result.0).is_none());

    devices.remove_chip(bt_chip_2_result.0, bt_chip_2_result.1).unwrap();
    assert!(devices.device(bt_chip_2_result.0).is_none());
}

#[test]
fn test_remove_chip_error() {
    let (mut devices, mut chips) = registries();
    let bt_chip_params = test_chip_1_bt();
    let bt_chip_result = bt_chip_params.add_chip(&mut devices, &mut chips).unwrap();

    match devices.remove_chip(bt_chip_result.0, 9999) {
        Ok(_) => unreachable!(),
        Err(err) => assert_eq!(err, "RemoveChip chip id 9999 not found"),
    }

    match devices.remove_chip(9999, bt_chip_result.1) {
        Ok(_) => unreachable!(),
        Err(err) => assert_eq!(err, "RemoveChip device id 9999 not found"),
    }
    assert!(devices.device(bt_chip_result.0).is_some());
}

#[test]
fn test_device_ids_and_default_names() {
    let (mut devices, _) = registries();
    let (id, name) = devices.get_or_create_device(None, None, false, None);
    assert_eq!(id, INITIAL_DEVICE_ID);
    assert_eq!(name, format!("device-{INITIAL_DEVICE_ID}"));
    let device = devices.device(id).unwrap();
    assert_eq!(device.guid, format!("device-{INITIAL_DEVICE_ID}"));
    assert_eq!(device.kind, "UNKNOWN");
    assert!(device.chips.is_empty());
    let (second, _) = devices.get_or_create_device(None, Some("named"), true, Some("KIND"));
    assert_eq!(second, INITIAL_DEVICE_ID + 1);
    assert_eq!(devices.device(second).unwrap().name, "named");
    assert!(devices.device(second).unwrap().builtin);
}

#[test]
fn test_beacon_chip_makes_builtin_device_and_remaining_count() {
    let (mut devices, mut chips) = registries();
    let beacon = TestChipParameters {
        device_guid: "beacon-guid".to_string(),
        device_name: "beacon".to_string(),
        chip_kind: ChipKind::BluetoothBeacon,
        chip_name: "beacon-chip".to_string(),
        chip_manufacturer: "netsim".to_string(),
        chip_product_name: "netsim_beacon".to_string(),
        kind: "BEACON".to_string(),
    };
    let (beacon_device, _) = beacon.add_chip(&mut devices, &mut chips).unwrap();
    assert!(devices.device(beacon_device).unwrap().builtin);
    let (device_id, chip_id) = test_chip_1_bt().add_chip(&mut devices, &mut chips).unwrap();
    assert!(!devices.device(device_id).unwrap().builtin);
    assert_eq!(devices.count_nonbuiltin(), 1);
    assert_eq!(devices.remove_chip(device_id, chip_id), Ok(0));
    assert_eq!(devices.count_nonbuiltin(), 0);
}

#[test]
fn test_delete_chip_finds_device() {
    let (mut devices, mut chips) = registries();
    let (device_id, chip_id) = test_chip_1_bt().add_chip(&mut devices, &mut chips).unwrap();
    let (_, other_chip) = test_chip_2_bt().add_chip(&mut devices, &mut chips).unwrap();
    assert_eq!(devices.find_chip(chip_id), Some(device_id));
    assert_eq!(devices.delete_chip(chip_id), Ok(1));
    assert!(devices.device(device_id).is_none());
    assert_eq!(
        devices.delete_chip(chip_id),
        Err("failed to delete chip: could not find chip with id 1000".to_string())
    );
    assert_eq!(chip_id, 1000);
    assert_eq!(devices.delete_chip(other_chip), Ok(0));
}

#[test]
fn test_find_guid_prefers_smallest_identifier() {
    let (mut devices, _) = registries();
    let (first, _) = devices.get_or_create_device(None, None, false, None);
    let (second, _) = devices.get_or_create_device(Some("device-1"), Some("same guid"), false, None);
    // The first device's default transport identifier is `device-1`, so
    // the second call finds it.
    assert_eq!(first, second);
    assert_eq!(devices.find_guid("device-1"), Some(first));
    assert_eq!(devices.find_guid("missing"), None);
}
