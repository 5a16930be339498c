//! Packet capture files: the file header and the packet records.
//!
//! All numbers are big-endian. The file header holds the magic number,
//! the format version 2.4, two reserved words, the snapshot length and the
//! link type. Each record holds the time in seconds and microseconds, the
//! captured and original lengths, then the packet, which here starts with a
//! 32-bit direction word.

use vstd::prelude::*;

verus! {

/// The direction of an HCI packet.
#[derive(Clone, Copy, PartialEq, Eq, Structural, Debug)]
pub enum PacketDirection {
    /// Host to controller, code 0.
    HostToController,
    /// Controller to host, code 1.
    ControllerToHost,
}

/// Link types of the packets of a capture file.
#[derive(Clone, Copy, PartialEq, Eq, Structural, Debug)]
pub enum LinkType {
    /// Radiotap link-layer information followed by an 802.11 header, code 127.
    Ieee802_11RadioTap,
    /// Bluetooth HCI UART transport layer with a direction word, code 201.
    BluetoothHciH4WithPhdr,
}

impl PacketDirection {
    /// The direction's code.
    pub open spec fn spec_value(self) -> u32 {
        match self {
            PacketDirection::HostToController => 0,
            PacketDirection::ControllerToHost => 1,
        }
    }

    /// The direction's code.
    pub fn value(&self) -> (r: u32)
        ensures
            r == self.spec_value(),
    {
        match self {
            PacketDirection::HostToController => 0,
            PacketDirection::ControllerToHost => 1,
        }
    }
}

impl LinkType {
    /// The link type's code.
    pub open spec fn spec_value(self) -> u32 {
        match self {
            LinkType::Ieee802_11RadioTap => 127,
            LinkType::BluetoothHciH4WithPhdr => 201,
        }
    }

    /// The link type's code.
    pub fn value(&self) -> (r: u32)
        ensures
            r == self.spec_value(),
    {
        match self {
            LinkType::Ieee802_11RadioTap => 127,
            LinkType::BluetoothHciH4WithPhdr => 201,
        }
    }
}

/// The four big-endian bytes of a 32-bit value.
pub open spec fn be32_bytes(v: u32) -> Seq<u8> {
    seq![(v >> 24u32) as u8, (v >> 16u32) as u8, (v >> 8u32) as u8, v as u8]
}

/// The two big-endian bytes of a 16-bit value.
pub open spec fn be16_bytes(v: u16) -> Seq<u8> {
    seq![(v >> 8u16) as u8, v as u8]
}

/// The 24 bytes of the file header.
pub open spec fn pcap_header(link_type: LinkType) -> Seq<u8> {
    be32_bytes(0xa1b2c3d4u32) + be16_bytes(2) + be16_bytes(4) + be32_bytes(0) + be32_bytes(0)
        + be32_bytes(u32::MAX) + be32_bytes(link_type.spec_value())
}

/// The bytes of one record: the time, the length of the direction word and
/// the packet (truncated to 32 bits) twice, the direction word, the packet.
pub open spec fn pcap_record(secs: u32, micros: u32, direction: PacketDirection, packet: Seq<u8>) -> Seq<u8> {
    let length = (4 + packet.len()) as u32;
    be32_bytes(secs) + be32_bytes(micros) + be32_bytes(length) + be32_bytes(length) + be32_bytes(
        direction.spec_value(),
    ) + packet
}

fn push_be32(out: &mut Vec<u8>, v: u32)
    ensures
        final(out)@ == old(out)@ + be32_bytes(v),
{
    out.push((v >> 24u32) as u8);
    out.push((v >> 16u32) as u8);
    out.push((v >> 8u32) as u8);
    out.push(v as u8);
    assert(final(out)@ =~= old(out)@ + be32_bytes(v));
}

fn push_be16(out: &mut Vec<u8>, v: u16)
    ensures
        final(out)@ == old(out)@ + be16_bytes(v),
{
    out.push((v >> 8u16) as u8);
    out.push(v as u8);
    assert(final(out)@ =~= old(out)@ + be16_bytes(v));
}

/// Appends the file header; returns its length.
pub fn write_pcap_header(link_type: LinkType, output: &mut Vec<u8>) -> (r: usize)
    ensures
        final(output)@ == old(output)@ + pcap_header(link_type),
        r == 24,
        pcap_header(link_type).len() == 24,
{
    let mut header: Vec<u8> = Vec::new();
    push_be32(&mut header, 0xa1b2c3d4u32);
    push_be16(&mut header, 2);
    push_be16(&mut header, 4);
    push_be32(&mut header, 0);
    push_be32(&mut header, 0);
    push_be32(&mut header, u32::MAX);
    push_be32(&mut header, link_type.value());
    assert(header@ =~= pcap_header(link_type));
    crate::wire::push_bytes(output, header.as_slice());
    header.len()
}

/// Appends a record with the time given in seconds and microseconds;
/// returns its length.
pub fn append_record_at(
    secs: u32,
    micros: u32,
    output: &mut Vec<u8>,
    packet_direction: PacketDirection,
    packet: &[u8],
) -> (r: usize)
    requires
        packet@.len() + 20 <= usize::MAX,
    ensures
        final(output)@ == old(output)@ + pcap_record(secs, micros, packet_direction, packet@),
        r == 20 + packet@.len(),
{
    let length = 4 + packet.len();
    let mut bytes: Vec<u8> = Vec::new();
    push_be32(&mut bytes, secs);
    push_be32(&mut bytes, micros);
    push_be32(&mut bytes, length as u32);
    push_be32(&mut bytes, length as u32);
    push_be32(&mut bytes, packet_direction.value());
    crate::wire::push_bytes(&mut bytes, packet);
    assert(bytes@ =~= pcap_record(secs, micros, packet_direction, packet@));
    crate::wire::push_bytes(output, bytes.as_slice());
    16 + length
}

/// The time of a record since the UNIX epoch: the whole seconds, and the
/// microseconds past them (what `Duration::as_secs` and
/// `Duration::subsec_micros` give).
#[derive(Clone, Copy, Debug, PartialEq, Eq, Structural)]
pub struct Timestamp {
    pub secs: u64,
    pub micros: u32,
}

/// Appends a record stamped with `timestamp` (its whole seconds truncated
/// to 32 bits, and its microseconds); returns its length.
pub fn append_record(
    timestamp: Timestamp,
    output: &mut Vec<u8>,
    packet_direction: PacketDirection,
    packet: &[u8],
) -> (r: usize)
    requires
        packet@.len() + 20 <= usize::MAX,
    ensures
        final(output)@ == old(output)@ + pcap_record(
            timestamp.secs as u32,
            timestamp.micros,
            packet_direction,
            packet@,
        ),
        r == 20 + packet@.len(),
{
    append_record_at(timestamp.secs as u32, timestamp.micros, output, packet_direction, packet)
}

} // verus!
