use netsim::pcap::{append_record, write_pcap_header, LinkType, PacketDirection, Timestamp};
use std::time::Duration;

// The capture with two packets: an HCI event from the controller and an
// HCI command 250 ms later.
const EXPECTED: [u8; 76] = [
    0xa1, 0xb2, 0xc3, 0xd4, 0x00, 0x02, 0x00, 0x04, 0x00, 0x00, 0x00, 0x00, 0x00, 0x00, 0x00, 0x00,
    0xff, 0xff, 0xff, 0xff, 0x00, 0x00, 0x00, 0xc9, // file header
    0x00, 0x00, 0x00, 0x00, 0x00, 0x00, 0x00, 0x00, 0x00, 0x00, 0x00, 0x0b, 0x00, 0x00, 0x00, 0x0b,
    0x00, 0x00, 0x00, 0x00, 4, 14, 4, 1, 10, 32, 0, // first record
    0x00, 0x00, 0x00, 0x00, 0x00, 0x03, 0xd0, 0x90, 0x00, 0x00, 0x00, 0x09, 0x00, 0x00, 0x00, 0x09,
    0x00, 0x00, 0x00, 0x01, 1, 10, 32, 1, 0, // second record
];

/// The seconds and microseconds of a duration.
fn stamp(d: Duration) -> Timestamp {
    Timestamp { secs: d.as_secs(), micros: d.subsec_micros() }
}

#[test]
fn test_pcap_file() {
    let mut actual = Vec::<u8>::new();
    write_pcap_header(LinkType::BluetoothHciH4WithPhdr, &mut actual);
    append_record(
        stamp(Duration::from_secs(0)),
        &mut actual,
        PacketDirection::HostToController,
        &[4, 14, 4, 1, 10, 32, 0],
    );
    append_record(
        stamp(Duration::from_millis(250)),
        &mut actual,
        PacketDirection::ControllerToHost,
        &[1, 10, 32, 1, 0],
    );
    assert_eq!(actual, EXPECTED);
}

#[test]
fn test_append_record_stamps_the_time() {
    let mut out = Vec::new();
    let n = append_record(stamp(Duration::new(0x1_0000_0005, 7_000)), &mut out, PacketDirection::ControllerToHost, &[9]);
    assert_eq!(n, 21);
    assert_eq!(&out[0..8], &[0, 0, 0, 5, 0, 0, 0, 7]);
}
