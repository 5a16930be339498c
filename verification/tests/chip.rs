use netsim::bluetooth::{BluetoothChip, PhyChange, RadioState};
use netsim::chip::{Chip, ChipManager, CreateParams, INITIAL_CHIP_ID};
use netsim::response::ChipKind;

const DEVICE_ID: u32 = 0;
const DEVICE_NAME: &str = "device";
const CHIP_KIND: ChipKind = ChipKind::Unspecified;
const ADDRESS: &str = "address";
const MANUFACTURER: &str = "manufacturer";
const PRODUCT_NAME: &str = "product_name";

fn new_test_chip<E: Clone>(chip_manager: &mut ChipManager<E>, emulated_chip: Option<E>) -> Chip<E> {
    let create_params = CreateParams {
        kind: CHIP_KIND,
        address: ADDRESS.to_string(),
        name: None,
        manufacturer: MANUFACTURER.to_string(),
        product_name: PRODUCT_NAME.to_string(),
    };
    match chip_manager.new_chip(DEVICE_ID, DEVICE_NAME, &create_params) {
        Ok(mut chip) => {
            chip.emulated_chip = emulated_chip;
            chip
        }
        Err(err) => {
            unreachable!("{err:?}");
        }
    }
}

#[test]
fn test_new_and_get_with_singleton() {
    let mut chip_manager = ChipManager::<()>::new(INITIAL_CHIP_ID);
    let chip = new_test_chip(&mut chip_manager, None);

    // Check if the Chip has been successfully inserted
    let chip_id = chip.id;

    // Check if the chip_manager can successfully fetch the chip
    let chip_result = chip_manager.get_chip(chip_id);
    assert!(chip_result.is_ok());

    // Check if the fields are correctly populated
    let chip = chip_result.unwrap();
    assert_eq!(chip.device_id, DEVICE_ID);
    assert_eq!(chip.device_name, DEVICE_NAME);
    assert!(chip.emulated_chip.is_none());
    assert_eq!(chip.kind, CHIP_KIND);
    assert_eq!(chip.address, ADDRESS);
    assert_eq!(chip.name, format!("chip-{chip_id}"));
    assert_eq!(chip.manufacturer, MANUFACTURER);
    assert_eq!(chip.product_name, PRODUCT_NAME);
}

#[test]
fn test_chip_ids_count_up() {
    let mut chip_manager = ChipManager::<u8>::new(INITIAL_CHIP_ID);
    let first = new_test_chip(&mut chip_manager, None);
    let second = new_test_chip(&mut chip_manager, None);
    assert_eq!(first.id, 1000);
    assert_eq!(second.id, 1001);
    assert_eq!(second.name, "chip-1001");
    assert_eq!(chip_manager.get_chip(1000).unwrap().id, 1000);
    assert_eq!(chip_manager.get_chip(1001).unwrap().id, 1001);
    match chip_manager.get_chip(7) {
        Err(m) => assert_eq!(m, "CHIPS does not contains key 7"),
        Ok(_) => panic!("no chip 7 was made"),
    }
}

#[test]
fn test_chip_named_and_wrapping() {
    let mut chip_manager = ChipManager::<u8>::new(u32::MAX);
    let params = CreateParams {
        kind: ChipKind::Wifi,
        address: "aa".to_string(),
        name: Some("wifi0".to_string()),
        manufacturer: String::new(),
        product_name: String::new(),
    };
    let a = chip_manager.new_chip(3, "d", &params).unwrap();
    let b = chip_manager.new_chip(3, "d", &params).unwrap();
    assert_eq!(a.id, u32::MAX);
    assert_eq!(b.id, 0);
    assert_eq!(a.name, "wifi0");
    assert_eq!(b.kind, ChipKind::Wifi);
}

#[test]
fn test_chip_patch_needs_emulated_chip() {
    let params = CreateParams {
        kind: ChipKind::Bluetooth,
        address: ADDRESS.to_string(),
        name: None,
        manufacturer: MANUFACTURER.to_string(),
        product_name: PRODUCT_NAME.to_string(),
    };
    let mut chip = Chip::<BluetoothChip>::new(1000, DEVICE_ID, DEVICE_NAME, &params);
    match chip.patch("patched_manufacturer", "", &Some((Some(RadioState::Off), None))) {
        Err(m) => assert_eq!(m, "EmulatedChip hasn't been instantiated yet for chip_id 1000"),
        Ok(_) => panic!("the chip has no emulated chip"),
    }
    assert_eq!(chip.manufacturer, "patched_manufacturer");
    assert_eq!(chip.product_name, PRODUCT_NAME);
    assert!(chip.reset().is_err());
    chip.emulated_chip = Some(BluetoothChip::new());
    assert_eq!(
        chip.patch("", "patched_product_name", &Some((Some(RadioState::Off), None))),
        Ok((PhyChange::Remove, PhyChange::Keep))
    );
    assert_eq!(chip.manufacturer, "patched_manufacturer");
    assert_eq!(chip.product_name, "patched_product_name");
    assert_eq!(chip.emulated_chip.as_ref().unwrap().low_energy_state(), RadioState::Off);
    assert!(chip.reset().is_ok());
    assert_eq!(chip.emulated_chip.as_ref().unwrap().low_energy_state(), RadioState::On);
}
