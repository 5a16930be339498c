use netsim::error::PacketError;
use netsim::hwsim::{HwsimAttrSet, HwsimCmd, HwsimMsg, HwsimMsgHdr, NlMsgHdr, TxRate};
use netsim::ieee80211::{parse_mac_address, MacAddress};
use netsim::medium::{build_tx_info, parse_hwsim_cmd, Delivery, HwsimCmdEnum, Medium};

fn mac(s: &str) -> [u8; 6] {
    parse_mac_address(s).unwrap().to_vec()
}

// An 802.11 data frame between stations of one independent network: the
// destination, the source, then the BSSID.
fn ibss_frame(src: &str, dst: &str) -> Vec<u8> {
    let mut f = vec![0x08, 0x00, 0x2c, 0x00];
    f.extend_from_slice(&mac(dst));
    f.extend_from_slice(&mac(src));
    f.extend_from_slice(&mac("00:13:10:85:fe:01"));
    f.extend_from_slice(&[0x10, 0x00, 0xaa, 0xbb]);
    f
}

// An 802.11 data frame from a station to the access point: the BSSID, the
// source, then the destination.
fn to_ap_frame(src: &str, dst: &str, bssid: &str) -> Vec<u8> {
    let mut f = vec![0x08, 0x01, 0x2c, 0x00];
    f.extend_from_slice(&mac(bssid));
    f.extend_from_slice(&mac(src));
    f.extend_from_slice(&mac(dst));
    f.extend_from_slice(&[0x20, 0x00, 0x01]);
    f
}

fn message(cmd: HwsimCmd, attributes: Vec<u8>) -> Vec<u8> {
    HwsimMsg {
        nl_hdr: NlMsgHdr {
            nlmsg_len: 20 + attributes.len() as u32,
            nlmsg_type: 0x1d,
            nlmsg_flags: 0,
            nlmsg_seq: 7,
            nlmsg_pid: 3,
        },
        hwsim_hdr: HwsimMsgHdr { hwsim_cmd: cmd, hwsim_version: 1, reserved: 0 },
        attributes,
    }
    .encode_to_vec()
}

fn frame_packet(frame: &[u8], hwsim_addr: &str, cookie: u64) -> Vec<u8> {
    let mut b = HwsimAttrSet::builder();
    b.transmitter(&mac(hwsim_addr))
        .frame(frame)
        .flags(2)
        .cookie(cookie)
        .tx_info(&[TxRate { idx: 0, count: 1 }]);
    message(HwsimCmd::Frame, b.build().unwrap().attributes)
}

fn process(medium: &mut Medium, client_id: u32, packet: &[u8]) -> (bool, Vec<Delivery>) {
    assert!(medium.can_process(packet));
    let mut out = Vec::new();
    let r = medium.process(client_id, packet, &mut out);
    (r, out)
}

fn cmd_of(packet: &[u8]) -> HwsimCmd {
    HwsimMsg::parse(packet).unwrap().get_hwsim_hdr().hwsim_cmd
}

#[test]
fn test_remove() {
    let test_client_id: u32 = 1234;
    let other_client_id: u32 = 5678;
    let addr: MacAddress = parse_mac_address("00:0b:85:71:20:00").unwrap();
    let other_addr: MacAddress = parse_mac_address("00:0b:85:71:20:01").unwrap();

    let mut medium = Medium::new();
    process(
        &mut medium,
        test_client_id,
        &frame_packet(&ibss_frame("00:0b:85:71:20:00", "02:00:00:00:00:09"), "00:0b:85:71:20:ce", 1),
    );
    process(
        &mut medium,
        other_client_id,
        &frame_packet(&ibss_frame("00:0b:85:71:20:01", "02:00:00:00:00:09"), "00:0b:85:71:20:cf", 2),
    );
    assert!(medium.contains_station(&addr));

    medium.remove(test_client_id);

    assert!(!medium.contains_station(&addr));
    assert!(medium.contains_station(&other_addr));
    assert!(!medium.contains_client(test_client_id));
    assert!(medium.contains_client(other_client_id));
}

#[test]
fn test_process_registers_client_and_station() {
    let mut medium = Medium::new();
    let (r, out) = process(
        &mut medium,
        1,
        &frame_packet(&ibss_frame("02:00:00:00:00:01", "02:00:00:00:00:09"), "42:00:00:00:00:01", 5),
    );
    // The destination is neither a station nor multicast: the frame leaves the medium.
    assert!(!r);
    assert!(out.is_empty());
    let station = medium.get_station(&parse_mac_address("02:00:00:00:00:01").unwrap()).unwrap();
    assert_eq!(station.client_id, 1);
    assert_eq!(station.hwsim_addr, parse_mac_address("42:00:00:00:00:01").unwrap());
    let client = medium.get(1).unwrap();
    assert!(client.enabled);
    assert_eq!(client.tx_count, 1);
    assert_eq!(client.rx_count, 0);
}

#[test]
fn test_process_delivers_between_stations() {
    let mut medium = Medium::new();
    process(&mut medium, 1, &frame_packet(&ibss_frame("02:00:00:00:00:01", "02:00:00:00:00:09"), "42:00:00:00:00:01", 1));
    process(&mut medium, 2, &frame_packet(&ibss_frame("02:00:00:00:00:02", "02:00:00:00:00:09"), "42:00:00:00:00:02", 2));
    let frame = ibss_frame("02:00:00:00:00:01", "02:00:00:00:00:02");
    let (r, out) = process(&mut medium, 1, &frame_packet(&frame, "42:00:00:00:00:01", 3));
    assert!(r);
    assert_eq!(out.len(), 2);
    // The sender gets the acknowledgement.
    assert_eq!(out[0].client_id, 1);
    assert_eq!(cmd_of(&out[0].packet), HwsimCmd::TxInfoFrame);
    let ack = HwsimMsg::parse(&out[0].packet).unwrap();
    let ack_attrs = HwsimAttrSet::parse(ack.get_attributes()).unwrap();
    assert_eq!(ack_attrs.flags, Some(2 | 4));
    assert_eq!(ack_attrs.cookie, Some(3));
    assert_eq!(ack_attrs.signal, Some(4294967246));
    // The destination gets the frame, addressed to its hwsim address.
    assert_eq!(out[1].client_id, 2);
    let fwd = HwsimMsg::parse(&out[1].packet).unwrap();
    assert_eq!(fwd.get_hwsim_hdr().hwsim_cmd, HwsimCmd::Frame);
    assert_eq!(fwd.get_nl_hdr().nlmsg_type, 0x10);
    assert_eq!(fwd.get_nl_hdr().nlmsg_seq, 0);
    assert_eq!(fwd.get_nl_hdr().nlmsg_len as usize, out[1].packet.len());
    let attrs = HwsimAttrSet::parse(fwd.get_attributes()).unwrap();
    assert_eq!(attrs.receiver, Some(parse_mac_address("42:00:00:00:00:02").unwrap()));
    assert_eq!(attrs.frame, Some(frame));
    assert_eq!(attrs.rx_rate_idx, Some(0));
    assert_eq!(attrs.signal, Some(4294967246));
    assert_eq!(medium.get(1).unwrap().tx_count, 2);
    assert_eq!(medium.get(2).unwrap().rx_count, 1);
}

#[test]
fn test_process_multicast_goes_to_other_stations() {
    let mut medium = Medium::new();
    process(&mut medium, 1, &frame_packet(&ibss_frame("02:00:00:00:00:01", "02:00:00:00:00:09"), "42:00:00:00:00:01", 1));
    process(&mut medium, 2, &frame_packet(&ibss_frame("02:00:00:00:00:02", "02:00:00:00:00:09"), "42:00:00:00:00:02", 2));
    process(&mut medium, 3, &frame_packet(&ibss_frame("02:00:00:00:00:03", "02:00:00:00:00:09"), "42:00:00:00:00:03", 3));
    let frame = ibss_frame("02:00:00:00:00:01", "ff:ff:ff:ff:ff:ff");
    let (r, out) = process(&mut medium, 1, &frame_packet(&frame, "42:00:00:00:00:01", 4));
    assert!(!r);
    let clients: Vec<u32> = out.iter().map(|d| d.client_id).collect();
    assert_eq!(clients, vec![1, 2, 3]);
    assert_eq!(cmd_of(&out[0].packet), HwsimCmd::TxInfoFrame);
    assert_eq!(cmd_of(&out[1].packet), HwsimCmd::Frame);
    // One frame counted per station reached, and one for the outside world.
    assert_eq!(medium.get(1).unwrap().tx_count, 1 + 2 + 1);
}

#[test]
fn test_process_skips_disabled_client() {
    let mut medium = Medium::new();
    process(&mut medium, 1, &frame_packet(&ibss_frame("02:00:00:00:00:01", "02:00:00:00:00:09"), "42:00:00:00:00:01", 1));
    process(&mut medium, 2, &frame_packet(&ibss_frame("02:00:00:00:00:02", "02:00:00:00:00:09"), "42:00:00:00:00:02", 2));
    medium.set_enabled(2, false);
    assert_eq!(medium.enabled(2), Ok(false));
    let (r, out) = process(&mut medium, 1, &frame_packet(&ibss_frame("02:00:00:00:00:01", "02:00:00:00:00:02"), "42:00:00:00:00:01", 3));
    assert!(r);
    assert_eq!(out.len(), 1);
    assert_eq!(out[0].client_id, 1);
    medium.reset(2);
    let c = medium.get(2).unwrap();
    assert!(c.enabled);
    assert_eq!((c.tx_count, c.rx_count), (0, 0));
}

#[test]
fn test_process_rewrites_frames_to_the_access_point() {
    let mut medium = Medium::new();
    process(&mut medium, 1, &frame_packet(&ibss_frame("02:00:00:00:00:01", "02:00:00:00:00:09"), "42:00:00:00:00:01", 1));
    process(&mut medium, 2, &frame_packet(&ibss_frame("02:00:00:00:00:02", "02:00:00:00:00:09"), "42:00:00:00:00:02", 2));
    let frame = to_ap_frame("02:00:00:00:00:01", "02:00:00:00:00:02", "00:13:10:85:fe:01");
    let (r, out) = process(&mut medium, 1, &frame_packet(&frame, "42:00:00:00:00:01", 3));
    assert!(r);
    let fwd = HwsimMsg::parse(&out[1].packet).unwrap();
    let attrs = HwsimAttrSet::parse(fwd.get_attributes()).unwrap();
    // From the access point: FromDS set, destination, BSSID, then source.
    let mut expected = vec![0x08, 0x02, 0x2c, 0x00];
    expected.extend_from_slice(&mac("02:00:00:00:00:02"));
    expected.extend_from_slice(&mac("00:13:10:85:fe:01"));
    expected.extend_from_slice(&mac("02:00:00:00:00:01"));
    expected.extend_from_slice(&[0x20, 0x00, 0x01]);
    assert_eq!(attrs.frame, Some(expected));
}

#[test]
fn test_process_ignores_other_commands_and_bad_packets() {
    let mut medium = Medium::new();
    let (r, out) = process(&mut medium, 1, &message(HwsimCmd::TxInfoFrame, vec![]));
    assert!(!r);
    assert!(out.is_empty());
    assert!(!medium.contains_client(1));
    let (r, _) = process(&mut medium, 1, &[1, 2, 3]);
    assert!(!r);
    // A frame without cookie is refused.
    let mut b = HwsimAttrSet::builder();
    b.transmitter(&mac("42:00:00:00:00:01")).frame(&ibss_frame("02:00:00:00:00:01", "02:00:00:00:00:02")).flags(0).tx_info(&[]);
    let (r, _) = process(&mut medium, 1, &message(HwsimCmd::Frame, b.build().unwrap().attributes));
    assert!(!r);
    assert!(!medium.contains_client(1));
}

#[test]
fn test_can_process_refuses_truncated_attributes() {
    let medium = Medium::new();
    assert!(!medium.can_process(&message(HwsimCmd::Frame, vec![8, 0, 3, 0, 1])));
    // Another command is never walked.
    assert!(medium.can_process(&message(HwsimCmd::TxInfoFrame, vec![8, 0, 3, 0, 1])));
}

#[test]
fn test_process_response_to_all_clients() {
    let mut medium = Medium::new();
    medium.add(7);
    medium.add(8);
    let mut out = Vec::new();
    medium.process_response(&[1, 2, 3], true, &mut out);
    let mut clients: Vec<u32> = out.iter().map(|d| d.client_id).collect();
    clients.sort();
    assert_eq!(clients, vec![7, 8]);
    assert!(out.iter().all(|d| d.packet == vec![1, 2, 3]));
}

#[test]
fn test_process_response_frame_to_station() {
    let mut medium = Medium::new();
    process(&mut medium, 1, &frame_packet(&ibss_frame("02:00:00:00:00:01", "02:00:00:00:00:09"), "42:00:00:00:00:01", 1));
    // A response addressed to the station's hwsim address goes as it came.
    let frame = ibss_frame("00:13:10:85:fe:01", "02:00:00:00:00:01");
    let mut b = HwsimAttrSet::builder();
    b.receiver(&mac("42:00:00:00:00:01")).frame(&frame);
    let packet = message(HwsimCmd::Frame, b.build().unwrap().attributes);
    assert!(medium.can_respond(&packet));
    let mut out = Vec::new();
    medium.process_response(&packet, false, &mut out);
    assert_eq!(out.len(), 1);
    assert_eq!(out[0].client_id, 1);
    assert_eq!(out[0].packet, packet);
    assert_eq!(medium.get(1).unwrap().rx_count, 1);
}

#[test]
fn test_process_response_tx_info_to_matching_client() {
    let mut medium = Medium::new();
    process(&mut medium, 1, &frame_packet(&ibss_frame("02:00:00:00:00:01", "02:00:00:00:00:09"), "42:00:00:00:00:01", 1));
    process(&mut medium, 2, &frame_packet(&ibss_frame("02:00:00:00:00:02", "02:00:00:00:00:09"), "42:00:00:00:00:02", 2));
    let mut b = HwsimAttrSet::builder();
    b.transmitter(&mac("42:00:00:00:00:02")).flags(4);
    let packet = message(HwsimCmd::TxInfoFrame, b.build().unwrap().attributes);
    let mut out = Vec::new();
    medium.process_response(&packet, false, &mut out);
    assert_eq!(out.len(), 1);
    assert_eq!(out[0].client_id, 2);
    // Another command from the access point goes nowhere.
    let mut out = Vec::new();
    medium.process_response(&message(HwsimCmd::NewRadio, vec![]), false, &mut out);
    assert!(out.is_empty());
}

#[test]
fn test_parse_hwsim_cmd() {
    let packet = frame_packet(&ibss_frame("02:00:00:00:00:01", "02:00:00:00:00:09"), "42:00:00:00:00:01", 1);
    match parse_hwsim_cmd(&packet) {
        Ok(HwsimCmdEnum::Frame(f)) => {
            assert_eq!(f.cookie, Some(1));
            assert_eq!(f.ieee80211.get_source(), parse_mac_address("02:00:00:00:00:01").unwrap());
        }
        _ => panic!("expected a frame"),
    }
    assert!(matches!(parse_hwsim_cmd(&message(HwsimCmd::TxInfoFrame, vec![])), Ok(HwsimCmdEnum::TxInfoFrame)));
    assert!(matches!(parse_hwsim_cmd(&message(HwsimCmd::GetRadio, vec![])), Err(PacketError::UnexpectedCommand)));
    assert!(matches!(parse_hwsim_cmd(&[0; 4]), Err(PacketError::TooShort)));
    // A response frame may lack the transmitter, flags, rates and cookie.
    let mut b = HwsimAttrSet::builder();
    b.receiver(&mac("42:00:00:00:00:01")).frame(&ibss_frame("02:00:00:00:00:01", "02:00:00:00:00:09"));
    assert!(parse_hwsim_cmd(&message(HwsimCmd::Frame, b.build().unwrap().attributes)).is_ok());
    // A frame attribute shorter than an 802.11 header is refused.
    let mut b = HwsimAttrSet::builder();
    b.frame(&[1, 2]);
    assert!(matches!(parse_hwsim_cmd(&message(HwsimCmd::Frame, b.build().unwrap().attributes)), Err(PacketError::TooShort)));
}

#[test]
fn test_build_tx_info_from_frame() {
    let packet = frame_packet(&ibss_frame("02:00:00:00:00:01", "02:00:00:00:00:09"), "42:00:00:00:00:01", 9);
    let msg = HwsimMsg::parse(&packet).unwrap();
    let tx_info = build_tx_info(&msg).unwrap();
    assert_eq!(tx_info.get_hwsim_hdr().hwsim_cmd, HwsimCmd::TxInfoFrame);
    assert_eq!(tx_info.get_hwsim_hdr().hwsim_version, 0);
    assert_eq!(tx_info.get_nl_hdr().nlmsg_type, 0x10);
    assert_eq!(tx_info.get_nl_hdr().nlmsg_len as usize, tx_info.encode_to_vec().len());
    let attrs = HwsimAttrSet::parse(tx_info.get_attributes()).unwrap();
    assert_eq!(attrs.transmitter, Some(parse_mac_address("42:00:00:00:00:01").unwrap()));
    assert_eq!(attrs.flags, Some(2 | 4));
    assert_eq!(attrs.cookie, Some(9));
    assert_eq!(attrs.signal, Some(4294967246));
    assert_eq!(attrs.frame, None);
    // Acknowledging the acknowledgement gives it back.
    let again = build_tx_info(&tx_info).unwrap();
    assert_eq!(again.encode_to_vec(), tx_info.encode_to_vec());
    // Without a cookie there is nothing to acknowledge.
    let mut b = HwsimAttrSet::builder();
    b.transmitter(&mac("42:00:00:00:00:01")).flags(0).tx_info(&[]);
    let msg = HwsimMsg::parse(&message(HwsimCmd::Frame, b.build().unwrap().attributes)).unwrap();
    assert_eq!(build_tx_info(&msg).err(), Some(PacketError::MissingAttribute));
}
