use netsim::chip::EmulatedChip;
use netsim::bluetooth::{patch_state, BluetoothChip, PhyChange, RadioState, MAX_INVALID_PACKETS};

#[test]
fn test_patch_state_transitions() {
    let mut s = RadioState::Off;
    assert_eq!(patch_state(&mut s, Some(RadioState::On)), PhyChange::Add);
    assert_eq!(s, RadioState::On);
    assert_eq!(patch_state(&mut s, Some(RadioState::On)), PhyChange::Keep);
    assert_eq!(s, RadioState::On);
    assert_eq!(patch_state(&mut s, Some(RadioState::Off)), PhyChange::Remove);
    assert_eq!(s, RadioState::Off);
    assert_eq!(patch_state(&mut s, None), PhyChange::Keep);
    assert_eq!(s, RadioState::Off);
    assert_eq!(patch_state(&mut s, Some(RadioState::Unknown)), PhyChange::Keep);
    assert_eq!(s, RadioState::Off);
    let mut u = RadioState::Unknown;
    assert_eq!(patch_state(&mut u, Some(RadioState::On)), PhyChange::Keep);
    assert_eq!(u, RadioState::Unknown);
}

#[test]
fn test_chip_patch_and_reset() {
    let mut chip = BluetoothChip::new();
    assert_eq!(chip.low_energy_state(), RadioState::On);
    assert_eq!(chip.classic_state(), RadioState::On);
    assert_eq!(chip.patch(&None), (PhyChange::Keep, PhyChange::Keep));
    assert_eq!(
        chip.patch(&Some((Some(RadioState::Off), None))),
        (PhyChange::Remove, PhyChange::Keep)
    );
    assert_eq!(chip.low_energy_state(), RadioState::Off);
    assert_eq!(chip.classic_state(), RadioState::On);
    assert_eq!(
        chip.patch(&Some((Some(RadioState::On), Some(RadioState::Off)))),
        (PhyChange::Add, PhyChange::Remove)
    );
    assert_eq!(chip.low_energy_state(), RadioState::On);
    assert_eq!(chip.classic_state(), RadioState::Off);
    chip.reset();
    assert_eq!(chip.low_energy_state(), RadioState::On);
    assert_eq!(chip.classic_state(), RadioState::On);
}

#[test]
fn test_report_invalid_packet_keeps_recent() {
    let mut chip = BluetoothChip::new();
    for i in 0..7u8 {
        chip.report_invalid_packet(i as i32, format!("packet {i}"), vec![i]);
    }
    assert_eq!(chip.invalid_packet_count(), MAX_INVALID_PACKETS);
    for k in 0..MAX_INVALID_PACKETS {
        let p = chip.invalid_packet(k);
        let i = k as u8 + 2;
        assert_eq!(p.reason, i as i32);
        assert_eq!(p.description, format!("packet {i}"));
        assert_eq!(p.packet, vec![i]);
    }
    chip.reset();
    assert_eq!(chip.invalid_packet_count(), MAX_INVALID_PACKETS);
}
