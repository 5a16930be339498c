use netsim::ieee80211::{
    parse_mac_address, DataSubType, FrameType, Ieee80211, Ieee80211FromAp, Ieee80211Ibss,
    Ieee80211ToAp, MacAddress,
};

#[test]
fn test_mad_address_to_vec() {
    let mac_address: MacAddress = parse_mac_address("00:0b:85:71:20:ce").unwrap();
    let mac_address_bytes = mac_address.to_vec();
    let reconstructed_mac_address = MacAddress::from(&mac_address_bytes);
    assert_eq!(mac_address, reconstructed_mac_address);
}

#[test]
fn test_frame_qos() {
    let frame: Vec<u8> = vec![
        0x88, 0x02, 0x2c, 0x00, 0x00, 0x13, 0xe8, 0xeb, 0xd6, 0x03, 0x00, 0x0b, 0x85, 0x71, 0x20,
        0xce, 0x00, 0x0b, 0x85, 0x71, 0x20, 0xce, 0x00, 0x26, 0x00, 0x00,
    ];
    let hdr = Ieee80211::parse(&frame).unwrap();
    assert!(hdr.is_data());
    assert_eq!(hdr.stype, DataSubType::Qos.value());
    assert_eq!(hdr.from_ds, 1);
    assert_eq!(hdr.to_ds, 0);
    assert_eq!(hdr.duration_id, 44);
    // Source address: Cisco_71:20:ce (00:0b:85:71:20:ce)
    let a = hdr.get_source().to_string();
    let b = parse_mac_address("00:0b:85:71:20:ce").unwrap().to_string();
    assert_eq!(a, b);
}

#[test]
fn test_is_multicast() {
    // Multicast MAC address: 01:00:5E:00:00:FB
    let mdns_mac_address = parse_mac_address("01:00:5e:00:00:fb").unwrap();
    assert!(mdns_mac_address.is_multicast());
    // Broadcast MAC address: ff:ff:ff:ff:ff:ff
    let broadcast_mac_address = parse_mac_address("ff:ff:ff:ff:ff:ff").unwrap();
    assert!(broadcast_mac_address.is_multicast());
    // Source address: Cisco_71:20:ce (00:0b:85:71:20:ce)
    let non_mdns_mac_address = parse_mac_address("00:0b:85:71:20:ce").unwrap();
    assert!(!non_mdns_mac_address.is_multicast());
}

#[test]
fn test_is_broadcast() {
    let mdns_mac_address = parse_mac_address("01:00:5e:00:00:fb").unwrap();
    assert!(!mdns_mac_address.is_broadcast());
    let broadcast_mac_address = parse_mac_address("ff:ff:ff:ff:ff:ff").unwrap();
    assert!(broadcast_mac_address.is_broadcast());
    let non_mdns_mac_address = parse_mac_address("00:0b:85:71:20:ce").unwrap();
    assert!(!non_mdns_mac_address.is_broadcast());
}

fn create_test_from_ap_ieee80211(
    source: MacAddress,
    destination: MacAddress,
    bssid: MacAddress,
) -> Ieee80211 {
    Ieee80211FromAp {
        duration_id: 0,
        ftype: FrameType::Mgmt,
        more_data: 0,
        more_frags: 0,
        order: 0,
        pm: 0,
        protected: 0,
        retry: 0,
        stype: 0,
        version: 0,
        bssid,
        source,
        destination,
        seq_ctrl: 0,
        payload: Vec::new(),
    }
    .try_into_ieee80211()
    .unwrap()
}

fn create_test_ibss_ieee80211(
    source: MacAddress,
    destination: MacAddress,
    bssid: MacAddress,
) -> Ieee80211 {
    Ieee80211Ibss {
        duration_id: 0,
        ftype: FrameType::Mgmt,
        more_data: 0,
        more_frags: 0,
        order: 0,
        pm: 0,
        protected: 0,
        retry: 0,
        stype: 0,
        version: 0,
        bssid,
        source,
        destination,
        seq_ctrl: 0,
        payload: Vec::new(),
    }
    .try_into_ieee80211()
    .unwrap()
}

fn create_test_to_ap_ieee80211(
    source: MacAddress,
    destination: MacAddress,
    bssid: MacAddress,
) -> Ieee80211 {
    Ieee80211ToAp {
        duration_id: 0,
        ftype: FrameType::Mgmt,
        more_data: 0,
        more_frags: 0,
        order: 0,
        pm: 0,
        protected: 0,
        retry: 0,
        stype: 0,
        version: 0,
        bssid,
        source,
        destination,
        seq_ctrl: 0,
        payload: Vec::new(),
    }
    .try_into_ieee80211()
    .unwrap()
}

fn check_with_address(create_test_ieee80211: fn(MacAddress, MacAddress, MacAddress) -> Ieee80211) {
    let source = parse_mac_address("01:02:03:00:00:01").unwrap();
    let destination = parse_mac_address("01:02:03:00:00:02").unwrap();
    let bssid = parse_mac_address("00:13:10:85:fe:01").unwrap();
    let ieee80211 = create_test_ieee80211(source, destination, bssid);

    let new_source = parse_mac_address("01:02:03:00:00:03").unwrap();
    let new_destination = parse_mac_address("01:02:03:00:00:04").unwrap();

    let new_ieee80211 = ieee80211.with_address(Some(new_source), Some(new_destination));
    assert!(new_ieee80211.get_source() == new_source);
    assert!(new_ieee80211.get_destination() == new_destination);

    let new_ieee80211 = ieee80211.with_address(Some(new_source), None);
    assert!(new_ieee80211.get_source() == new_source);
    assert!(new_ieee80211.get_destination() == destination);

    let new_ieee80211 = ieee80211.with_address(None, Some(new_destination));
    assert!(new_ieee80211.get_source() == source);
    assert!(new_ieee80211.get_destination() == new_destination);
}

#[test]
fn test_with_address_from_ap() {
    check_with_address(create_test_from_ap_ieee80211);
}

#[test]
fn test_with_address_to_ap() {
    check_with_address(create_test_to_ap_ieee80211);
}

#[test]
fn test_with_address_ibss() {
    check_with_address(create_test_ibss_ieee80211);
}

#[test]
fn test_into_from_ap_keeps_addresses() {
    let source = parse_mac_address("01:02:03:00:00:01").unwrap();
    let destination = parse_mac_address("01:02:03:00:00:02").unwrap();
    let bssid = parse_mac_address("00:13:10:85:fe:01").unwrap();
    let to_ap = create_test_to_ap_ieee80211(source, destination, bssid);
    assert!(to_ap.is_to_ap());
    let from_ap = to_ap.into_from_ap().unwrap().try_into_ieee80211().unwrap();
    assert!(!from_ap.is_to_ap());
    assert_eq!(from_ap.from_ds, 1);
    assert_eq!(from_ap.to_ds, 0);
    assert_eq!(from_ap.get_source(), source);
    assert_eq!(from_ap.get_destination(), destination);
    assert_eq!(from_ap.get_bssid(), Some(bssid));
    // Frames of other kinds are refused.
    let ibss = create_test_ibss_ieee80211(source, destination, bssid);
    assert!(ibss.into_from_ap().is_err());
}

#[test]
fn test_mac_address_text_roundtrip() {
    let a = MacAddress::try_from_u64(0x00ce_2071_850b).unwrap();
    assert_eq!(a.to_string(), "0b:85:71:20:ce:00");
    assert_eq!(parse_mac_address(&a.to_string()), Some(a));
    assert_eq!(parse_mac_address("0b:85:71:20:ce"), None);
    assert_eq!(parse_mac_address("0b:85:71:20:ce:100"), None);
    assert_eq!(parse_mac_address("0B:85:71:20:CE:00"), Some(a));
    assert!(MacAddress::try_from_u64(1 << 48).is_none());
}

#[test]
fn test_encode_parse_roundtrip() {
    let frame: Vec<u8> = vec![
        0x88, 0x02, 0x2c, 0x00, 0x00, 0x13, 0xe8, 0xeb, 0xd6, 0x03, 0x00, 0x0b, 0x85, 0x71, 0x20,
        0xce, 0x00, 0x0b, 0x85, 0x71, 0x20, 0xce, 0x00, 0x26, 0x00, 0x00,
    ];
    let hdr = Ieee80211::parse(&frame).unwrap();
    assert_eq!(hdr.encode_to_vec().unwrap(), frame);
    assert_eq!(hdr.get_ds(), "FromAp");
    assert!(Ieee80211::parse(&[0x88, 0x02, 0x2c]).is_err());
}

#[test]
fn test_mac_text_canonical_roundtrip() {
    for s in ["00:0b:85:71:20:ce", "ff:ff:ff:ff:ff:ff", "02:15:b2:00:00:00"] {
        assert_eq!(parse_mac_address(s).unwrap().to_string(), s);
    }
    assert!(parse_mac_address("00:0b:85:71:20").is_none());
    assert!(parse_mac_address("0:0:0:0:0:0").is_some());
}
