use netsim::error::PacketError;
use netsim::hwsim::{
    attrs_walkable, nla_align, HwsimAttrSet, HwsimCmd, HwsimMsg, HwsimMsgHdr, NlMsgHdr, TxRate,
    TxRateFlag,
};
use netsim::ieee80211::{parse_mac_address, MacAddress};

fn sample_set() -> HwsimAttrSet {
    let transmitter = parse_mac_address("02:15:b2:00:00:00").unwrap().to_vec();
    let mut builder = HwsimAttrSet::builder();
    builder
        .transmitter(&transmitter)
        .frame(&[1, 2, 3, 4, 5])
        .flags(2)
        .cookie(201)
        .signal(4294967246)
        .freq(2422)
        .tx_info(&[TxRate { idx: 0, count: 1 }, TxRate { idx: 255, count: 0 }]);
    builder.build().unwrap()
}

#[test]
fn test_builder_then_parse_gives_back_the_set() {
    let set = sample_set();
    let parsed = HwsimAttrSet::parse(&set.attributes).unwrap();
    assert_eq!(parsed.transmitter, set.transmitter);
    assert_eq!(parsed.receiver, None);
    assert_eq!(parsed.frame, Some(vec![1, 2, 3, 4, 5]));
    assert_eq!(parsed.flags, Some(2));
    assert_eq!(parsed.cookie, Some(201));
    assert_eq!(parsed.signal, Some(4294967246));
    assert_eq!(parsed.freq, Some(2422));
    assert_eq!(parsed.tx_info, Some(vec![TxRate { idx: 0, count: 1 }, TxRate { idx: 255, count: 0 }]));
    assert_eq!(parsed.attributes, set.attributes);
}

#[test]
fn test_attribute_bytes_are_padded_to_four() {
    let mut builder = HwsimAttrSet::builder();
    builder.frame(&[7]);
    let set = builder.build().unwrap();
    // Length 5 (header and one byte), type 3, the byte, three bytes of padding.
    assert_eq!(set.attributes, vec![5, 0, 3, 0, 7, 0, 0, 0]);
}

#[test]
fn test_parse_with_frame_transmitter_replaces_them() {
    let set = sample_set();
    let new_transmitter = parse_mac_address("00:0b:85:71:20:ce").unwrap().to_vec();
    let parsed = HwsimAttrSet::parse_with_frame_transmitter(
        &set.attributes,
        Some(&[9, 9]),
        Some(&new_transmitter),
    )
    .unwrap();
    assert_eq!(parsed.transmitter, Some(MacAddress::from(&new_transmitter)));
    assert_eq!(parsed.frame, Some(vec![9, 9]));
    assert_eq!(parsed.cookie, Some(201));
    assert_ne!(parsed.attributes, set.attributes);
}

#[test]
fn test_parse_errors() {
    // An attribute type that hwsim messages do not carry.
    assert_eq!(
        HwsimAttrSet::parse(&[4, 0, 30, 0]).err(),
        Some(PacketError::UnknownAttribute { nla_type: 30 })
    );
    // A length field shorter than the header.
    assert_eq!(HwsimAttrSet::parse(&[2, 0, 4, 0]).err(), Some(PacketError::InvalidLength));
    // A receiver address with only two bytes.
    assert_eq!(HwsimAttrSet::parse(&[6, 0, 1, 0, 1, 2, 0, 0]).err(), Some(PacketError::TooShort));
    // Rates take two bytes each.
    assert_eq!(HwsimAttrSet::parse(&[7, 0, 7, 0, 1, 2, 3, 0]).err(), Some(PacketError::InvalidLength));
}

#[test]
fn test_walkable() {
    assert!(attrs_walkable(&[]));
    assert!(attrs_walkable(&sample_set().attributes));
    // Fewer than four bytes for a header.
    assert!(!attrs_walkable(&[1, 2]));
    // A length that runs past the end.
    assert!(!attrs_walkable(&[12, 0, 3, 0, 1]));
    // Decoding fails before the end: no panic.
    assert!(attrs_walkable(&[2, 0, 3, 0]));
}

#[test]
fn test_nla_align() {
    assert_eq!(nla_align(0), 0);
    assert_eq!(nla_align(1), 4);
    assert_eq!(nla_align(4), 4);
    assert_eq!(nla_align(5), 8);
    assert_eq!(nla_align(usize::MAX), 0);
}

#[test]
fn test_display() {
    let text = sample_set().to_string();
    assert!(text.contains("transmitter: 02:15:b2:00:00:00"));
    assert!(text.contains("cookie: 201"));
    assert_eq!(
        text,
        "{ transmitter: 02:15:b2:00:00:00, cookie: 201, flags: 2, signal: 4294967246, \
         frame: [1, 2, 3, 4, 5], freq: 2422, tx_info: [TxRate { idx: 0, count: 1 }, \
         TxRate { idx: 255, count: 0 }], }"
    );
    let mut builder = HwsimAttrSet::builder();
    builder.tx_info_flags(&[TxRateFlag { idx: 3, flags: 258 }]);
    assert_eq!(builder.build().unwrap().to_string(), "{ tx_info_flags: [TxRateFlag { idx: 3, flags: 258 }], }");
}

#[test]
fn test_hwsim_msg_roundtrip() {
    let set = sample_set();
    let msg = HwsimMsg {
        nl_hdr: NlMsgHdr {
            nlmsg_len: 20 + set.attributes.len() as u32,
            nlmsg_type: 0x22,
            nlmsg_flags: 0,
            nlmsg_seq: 5,
            nlmsg_pid: 6,
        },
        hwsim_hdr: HwsimMsgHdr { hwsim_cmd: HwsimCmd::Frame, hwsim_version: 1, reserved: 0 },
        attributes: set.attributes.clone(),
    };
    let bytes = msg.encode_to_vec();
    assert_eq!(bytes.len(), 20 + set.attributes.len());
    assert_eq!(bytes[16], 2);
    let back = HwsimMsg::parse(&bytes).unwrap();
    assert_eq!(*back.get_nl_hdr(), msg.nl_hdr);
    assert_eq!(*back.get_hwsim_hdr(), msg.hwsim_hdr);
    assert_eq!(back.get_attributes(), &set.attributes[..]);
}

#[test]
fn test_hwsim_msg_parse_errors() {
    assert_eq!(HwsimMsg::parse(&[0; 19]).err(), Some(PacketError::TooShort));
    let mut bytes = vec![0u8; 20];
    bytes[16] = 99;
    assert_eq!(HwsimMsg::parse(&bytes).err(), Some(PacketError::UnknownValue));
}

#[test]
fn test_hwsim_cmd_values() {
    assert_eq!(HwsimCmd::Frame.value(), 2);
    assert_eq!(HwsimCmd::TxInfoFrame.value(), 3);
    assert_eq!(HwsimCmd::from_value(3), Some(HwsimCmd::TxInfoFrame));
    assert_eq!(HwsimCmd::from_value(9), None);
}
