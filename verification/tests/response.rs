use netsim::display::State;
use netsim::response::{filter_pcaps, ChipKind, PcapInfo};

fn test_filter_pcaps_helper(patterns: Vec<String>, expected_pcaps: Vec<PcapInfo>) {
    let mut pcaps = all_test_pcaps();
    filter_pcaps(&mut pcaps, &patterns);
    let ids: Vec<i32> = pcaps.iter().map(|p| p.id).collect();
    let expected_ids: Vec<i32> = expected_pcaps.iter().map(|p| p.id).collect();
    assert_eq!(ids, expected_ids);
    for (p, e) in pcaps.iter().zip(expected_pcaps.iter()) {
        assert_eq!(p.device_name, e.device_name);
        assert_eq!(p.chip_kind, e.chip_kind);
    }
}

fn pcap_1() -> PcapInfo {
    PcapInfo { id: 4001, chip_kind: ChipKind::Bluetooth, device_name: "device 1".to_string(), state: State::On, size: 0 }
}
fn pcap_1_wifi() -> PcapInfo {
    PcapInfo { id: 4002, chip_kind: ChipKind::Wifi, device_name: "device 1".to_string(), state: State::On, size: 0 }
}
fn pcap_2() -> PcapInfo {
    PcapInfo { id: 4003, chip_kind: ChipKind::Bluetooth, device_name: "device 2".to_string(), state: State::On, size: 0 }
}
fn pcap_3() -> PcapInfo {
    PcapInfo { id: 4004, chip_kind: ChipKind::Wifi, device_name: "device 3".to_string(), state: State::On, size: 0 }
}
fn all_test_pcaps() -> Vec<PcapInfo> {
    vec![pcap_1(), pcap_1_wifi(), pcap_2(), pcap_3()]
}

#[test]
fn test_no_match() {
    test_filter_pcaps_helper(vec!["test".to_string()], vec![]);
}

#[test]
fn test_all_match() {
    test_filter_pcaps_helper(vec!["device".to_string()], all_test_pcaps());
}

#[test]
fn test_match_pcap_id() {
    test_filter_pcaps_helper(vec!["4001".to_string()], vec![pcap_1()]);
    test_filter_pcaps_helper(vec!["03".to_string()], vec![pcap_2()]);
    test_filter_pcaps_helper(vec!["40".to_string()], all_test_pcaps());
}

#[test]
fn test_match_device_name() {
    test_filter_pcaps_helper(vec!["device 1".to_string()], vec![pcap_1(), pcap_1_wifi()]);
    test_filter_pcaps_helper(vec![" 2".to_string()], vec![pcap_2()]);
}

#[test]
fn test_match_device_name_case_insensitive() {
    test_filter_pcaps_helper(vec!["DEVICE 1".to_string()], vec![pcap_1(), pcap_1_wifi()]);
}

#[test]
fn test_match_wifi() {
    test_filter_pcaps_helper(vec!["wifi".to_string()], vec![pcap_1_wifi(), pcap_3()]);
    test_filter_pcaps_helper(vec!["WIFI".to_string()], vec![pcap_1_wifi(), pcap_3()]);
}

#[test]
fn test_match_bt() {
    test_filter_pcaps_helper(vec!["BLUETOOTH".to_string()], vec![pcap_1(), pcap_2()]);
    test_filter_pcaps_helper(vec!["blue".to_string()], vec![pcap_1(), pcap_2()]);
}

#[test]
fn test_match_name_and_chip() {
    test_filter_pcaps_helper(
        vec!["device 1".to_string(), "wifi".to_string()],
        vec![pcap_1_wifi()],
    );
}

#[test]
fn test_no_patterns_keeps_all() {
    test_filter_pcaps_helper(vec![], all_test_pcaps());
}

#[test]
fn test_negative_id_matches_minus_sign() {
    let mut pcaps = vec![
        PcapInfo { id: -7, chip_kind: ChipKind::Uwb, device_name: "x".to_string(), state: State::On, size: 0 },
        PcapInfo { id: 7, chip_kind: ChipKind::Uwb, device_name: "y".to_string(), state: State::On, size: 0 },
    ];
    filter_pcaps(&mut pcaps, &["-7".to_string()]);
    assert_eq!(pcaps.len(), 1);
    assert_eq!(pcaps[0].id, -7);
}

#[test]
fn test_chip_kind_names() {
    assert_eq!(ChipKind::Unspecified.to_string(), "UNSPECIFIED");
    assert_eq!(ChipKind::Bluetooth.to_string(), "BLUETOOTH");
    assert_eq!(ChipKind::Wifi.to_string(), "WIFI");
    assert_eq!(ChipKind::Uwb.to_string(), "UWB");
}
