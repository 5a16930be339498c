//! Tests on hwsim packets written out byte by byte, as the kernel's
//! mac80211_hwsim driver sends them.

use netsim::frame::Frame;
use netsim::hwsim::{HwsimAttrSet, HwsimCmd, HwsimMsg};
use netsim::ieee80211::{parse_mac_address, MacAddress};
use netsim::medium::{build_tx_info, parse_hwsim_cmd};

/// A netlink attribute: length, type, value, padding to four bytes.
fn attr(t: u16, v: &[u8]) -> Vec<u8> {
    let mut a = Vec::new();
    a.extend_from_slice(&((4 + v.len()) as u16).to_le_bytes());
    a.extend_from_slice(&t.to_le_bytes());
    a.extend_from_slice(v);
    while a.len() % 4 != 0 {
        a.push(0);
    }
    a
}

/// A generic netlink message of the hwsim family.
fn msg(cmd: u8, version: u8, nl_type: u16, flags: u16, seq: u32, pid: u32, attrs: &[u8]) -> Vec<u8> {
    let mut m = Vec::new();
    m.extend_from_slice(&((20 + attrs.len()) as u32).to_le_bytes());
    m.extend_from_slice(&nl_type.to_le_bytes());
    m.extend_from_slice(&flags.to_le_bytes());
    m.extend_from_slice(&seq.to_le_bytes());
    m.extend_from_slice(&pid.to_le_bytes());
    m.extend_from_slice(&[cmd, version, 0, 0]);
    m.extend_from_slice(attrs);
    m
}

/// An 802.11 data frame of an independent network: destination, source,
/// BSSID, sequence control, then a payload.
fn data_frame(dst: [u8; 6], src: [u8; 6]) -> Vec<u8> {
    let mut f = vec![0x08, 0x00, 0x00, 0x00];
    f.extend_from_slice(&dst);
    f.extend_from_slice(&src);
    f.extend_from_slice(&[0x02, 0x15, 0xb2, 0x00, 0x00, 0x00]);
    f.extend_from_slice(&[0x30, 0x00]);
    f.extend_from_slice(&[0xaa, 0xaa, 0x03, 0x00, 0x00, 0x00, 0x08, 0x00, 0x45, 0x00]);
    f
}

const TRANSMITTER: [u8; 6] = [0x02, 0x15, 0xb2, 0x00, 0x00, 0x00];
const STATION: [u8; 6] = [0x02, 0x15, 0xb2, 0x00, 0x00, 0x01];
const TX_INFO: [u8; 8] = [0x00, 0x01, 0xff, 0x00, 0xff, 0x00, 0xff, 0x00];

/// A frame command: transmitter, frame, flags, rates, cookie, frequency.
fn hwsim_cmd_frame_with(frame: &[u8]) -> Vec<u8> {
    let mut a = Vec::new();
    a.extend(attr(2, &TRANSMITTER));
    a.extend(attr(3, frame));
    a.extend(attr(4, &2u32.to_le_bytes()));
    a.extend(attr(7, &TX_INFO));
    a.extend(attr(8, &201u64.to_le_bytes()));
    a.extend(attr(19, &2422u32.to_le_bytes()));
    msg(2, 1, 0x1d, 0, 1, 3, &a)
}

fn hwsim_cmd_frame() -> Vec<u8> {
    hwsim_cmd_frame_with(&data_frame([0xff; 6], STATION))
}

/// An acknowledgement: transmitter, flags with the ACK bit, cookie, signal,
/// rates, in the order in which the daemon builds it.
fn hwsim_cmd_tx_info() -> Vec<u8> {
    let mut a = Vec::new();
    a.extend(attr(2, &TRANSMITTER));
    a.extend(attr(4, &6u32.to_le_bytes()));
    a.extend(attr(8, &201u64.to_le_bytes()));
    a.extend(attr(6, &4294967246u32.to_le_bytes()));
    a.extend(attr(7, &TX_INFO));
    msg(3, 0, 0x10, 0, 0, 0, &a)
}

/// A frame sent to a station: receiver, frame, rate, signal, frequency and,
/// where asked, a cookie; no transmitter, flags or rates.
fn hwsim_cmd_frame_response(cookie: bool) -> Vec<u8> {
    let mut a = Vec::new();
    a.extend(attr(1, &STATION));
    a.extend(attr(3, &data_frame(STATION, TRANSMITTER)));
    a.extend(attr(5, &1u32.to_le_bytes()));
    a.extend(attr(6, &4294967246u32.to_le_bytes()));
    a.extend(attr(19, &2422u32.to_le_bytes()));
    if cookie {
        a.extend(attr(8, &7u64.to_le_bytes()));
    }
    msg(2, 1, 0x1d, 0, 0, 0, &a)
}

#[test]
fn test_attr_set_parse() {
    let packet: Vec<u8> = hwsim_cmd_frame();
    let hwsim_msg = HwsimMsg::parse(&packet).unwrap();
    assert_eq!(hwsim_msg.get_hwsim_hdr().hwsim_cmd, HwsimCmd::Frame);
    let attrs = HwsimAttrSet::parse(hwsim_msg.get_attributes()).unwrap();

    // Validate each attribute parsed
    assert_eq!(attrs.transmitter, MacAddress::try_from_u64(11670786u64));
    assert!(attrs.receiver.is_none());
    assert!(attrs.frame.is_some());
    assert_eq!(attrs.flags, Some(2));
    assert!(attrs.rx_rate_idx.is_none());
    assert!(attrs.signal.is_none());
    assert_eq!(attrs.cookie, Some(201));
    assert_eq!(attrs.freq, Some(2422));
    assert!(attrs.tx_info.is_some());
}

#[test]
fn test_attr_set_attributes() {
    let packet: Vec<u8> = hwsim_cmd_frame();
    let hwsim_msg = HwsimMsg::parse(&packet).unwrap();
    assert_eq!(hwsim_msg.get_hwsim_hdr().hwsim_cmd, HwsimCmd::Frame);
    let attrs = HwsimAttrSet::parse(hwsim_msg.get_attributes()).unwrap();
    assert_eq!(&attrs.attributes[..], hwsim_msg.get_attributes());
}

#[test]
fn test_attr_set_parse_with_frame_transmitter() {
    let packet: Vec<u8> = hwsim_cmd_frame();
    let hwsim_msg = HwsimMsg::parse(&packet).unwrap();
    assert_eq!(hwsim_msg.get_hwsim_hdr().hwsim_cmd, HwsimCmd::Frame);
    let attrs = HwsimAttrSet::parse(hwsim_msg.get_attributes()).unwrap();
    let transmitter: [u8; 6] = attrs.transmitter.unwrap().to_vec();
    let mod_attrs = HwsimAttrSet::parse_with_frame_transmitter(
        hwsim_msg.get_attributes(),
        attrs.frame.as_deref(),
        Some(&transmitter),
    )
    .unwrap();

    assert_eq!(attrs.attributes, mod_attrs.attributes);

    // Change frame and transmitter.
    let mod_frame = Some(vec![0, 1, 2, 3]);
    let mod_transmitter: Option<[u8; 6]> = Some(parse_mac_address("00:0b:85:71:20:ce").unwrap().to_vec());

    let mod_attrs = HwsimAttrSet::parse_with_frame_transmitter(
        &attrs.attributes,
        mod_frame.as_deref(),
        mod_transmitter.as_ref(),
    )
    .unwrap();

    let parsed_attrs = HwsimAttrSet::parse(&mod_attrs.attributes).unwrap();
    assert_eq!(parsed_attrs.transmitter.map(|m| m.to_vec()), mod_transmitter);
    assert_eq!(parsed_attrs.frame, mod_frame);
}

#[test]
fn test_hwsim_attr_set_display() {
    let packet: Vec<u8> = hwsim_cmd_frame();
    let hwsim_msg = HwsimMsg::parse(&packet).unwrap();
    let attrs = HwsimAttrSet::parse(hwsim_msg.get_attributes()).unwrap();

    let fmt_attrs = attrs.to_string();
    assert!(fmt_attrs.contains("transmitter: 02:15:b2:00:00:00"));
    assert!(fmt_attrs.contains("cookie: 201"));
}

#[test]
fn test_netlink_attr() {
    let packet: Vec<u8> = hwsim_cmd_frame();
    assert!(parse_hwsim_cmd(&packet).is_ok());

    let tx_info_packet: Vec<u8> = hwsim_cmd_tx_info();
    assert!(parse_hwsim_cmd(&tx_info_packet).is_ok());
}

#[test]
fn test_netlink_attr_response_packet() {
    // Response packet may not contain transmitter, flags, tx_info, or cookie fields.
    let response_packet: Vec<u8> = hwsim_cmd_frame_response(true);
    assert!(parse_hwsim_cmd(&response_packet).is_ok());

    let response_packet2: Vec<u8> = hwsim_cmd_frame_response(false);
    assert!(parse_hwsim_cmd(&response_packet2).is_ok());
}

#[test]
fn test_is_mdns_packet() {
    let packet: Vec<u8> = hwsim_cmd_frame_with(&data_frame([0x01, 0x00, 0x5e, 0x00, 0x00, 0xfb], STATION));
    let hwsim_msg = HwsimMsg::parse(&packet).unwrap();
    let mdns_frame = Frame::parse(&hwsim_msg).unwrap();
    assert!(!mdns_frame.ieee80211.get_source().is_multicast());
    assert!(mdns_frame.ieee80211.get_destination().is_multicast());
}

#[test]
fn test_build_tx_info_reconstruct() {
    let packet: Vec<u8> = hwsim_cmd_tx_info();
    let hwsim_msg = HwsimMsg::parse(&packet).unwrap();
    assert_eq!(hwsim_msg.get_hwsim_hdr().hwsim_cmd, HwsimCmd::TxInfoFrame);

    let new_hwsim_msg = build_tx_info(&hwsim_msg).unwrap();
    assert_eq!(hwsim_msg, new_hwsim_msg);
}

#[test]
fn test_build_tx_info() {
    let packet: Vec<u8> = hwsim_cmd_frame();
    let hwsim_msg = HwsimMsg::parse(&packet).unwrap();
    let hwsim_msg_tx_info = build_tx_info(&hwsim_msg).unwrap();
    assert_eq!(hwsim_msg_tx_info.get_hwsim_hdr().hwsim_cmd, HwsimCmd::TxInfoFrame);
}
