//! IEEE 802.11 MAC addresses and frame headers.
//!
//! A frame starts with a 16-bit frame control field and a 16-bit duration,
//! both little-endian, followed by the body. The body's layout depends on the
//! ToDS and FromDS bits: three addresses and a sequence control field (plus a
//! fourth address for frames between distribution systems), then the payload.

use crate::text::{
    chars_of, hex_byte, lemma_hex_byte_parse, lemma_split_on_extend, lemma_split_on_sep, parse_hex,
    parse_hex_range, piece_end, piece_start, push_hex_byte, split_on, split_positions,
};
use crate::error::PacketError;
use crate::wire::{
    clone_bytes, copy_range, le16, le16_bytes, le48, le48_bytes, lemma_le16, lemma_le48, push_bytes,
    push_u16, push_u48, read_u16, read_u48,
};
use vstd::prelude::*;

verus! {

/// A 48-bit IEEE 802.11 MAC address; the value holds the six octets, the
/// first octet in the least significant byte.
#[derive(Clone, Copy, PartialEq, Eq, Structural, Debug, Hash)]
pub struct MacAddress(pub u64);

/// The text form of six octets: two lowercase hexadecimal digits each,
/// separated by colons.
pub open spec fn mac_text(o: Seq<u8>) -> Seq<char> {
    hex_byte(o[0]) + seq![':'] + hex_byte(o[1]) + seq![':'] + hex_byte(o[2]) + seq![':']
        + hex_byte(o[3]) + seq![':'] + hex_byte(o[4]) + seq![':'] + hex_byte(o[5])
}

/// The result of parsing a colon-separated address text: exactly six pieces,
/// each a base-16 number no larger than 255.
pub open spec fn spec_parse_mac_address(s: Seq<char>) -> Option<u64> {
    let parts = split_on(s, ':');
    if parts.len() == 6 && forall|i: int| 0 <= i < 6 ==> (#[trigger] parse_hex(parts[i], 255)).is_some() {
        Some(le48(Seq::new(6, |i: int| parse_hex(parts[i], 255).unwrap() as u8)))
    } else {
        None
    }
}

proof fn lemma_split_step(s: Seq<char>, h: Seq<char>)
    requires
        forall|i: int| 0 <= i < h.len() ==> h[i] != ':',
    ensures
        split_on((s + seq![':']) + h, ':') == split_on(s, ':').push(h),
{
    assert(s + seq![':'] =~= s.push(':'));
    lemma_split_on_sep(s, ':');
    lemma_split_on_extend(s.push(':'), h, ':');
    let p = split_on(s, ':').push(Seq::<char>::empty());
    assert(p.update(p.len() - 1, p.last() + h) =~= split_on(s, ':').push(h));
}

/// An address rebuilt from its six octets is the same address.
pub proof fn lemma_octets_roundtrip(m: MacAddress)
    requires
        m.wf(),
    ensures
        le48(m.octets()) == m.0,
        m.octets().len() == 6,
{
    lemma_le48(m.0, m.octets());
}

/// Writing an address as text and parsing the text gives the address back.
pub proof fn lemma_mac_text_roundtrip(m: MacAddress)
    requires
        m.wf(),
    ensures
        spec_parse_mac_address(mac_text(m.octets())) == Some(m.0),
{
    let o = m.octets();
    let h0 = hex_byte(o[0]);
    let h1 = hex_byte(o[1]);
    let h2 = hex_byte(o[2]);
    let h3 = hex_byte(o[3]);
    let h4 = hex_byte(o[4]);
    let h5 = hex_byte(o[5]);
    lemma_hex_byte_parse(o[0]);
    lemma_hex_byte_parse(o[1]);
    lemma_hex_byte_parse(o[2]);
    lemma_hex_byte_parse(o[3]);
    lemma_hex_byte_parse(o[4]);
    lemma_hex_byte_parse(o[5]);
    let c = seq![':'];
    lemma_split_on_extend(Seq::<char>::empty(), h0, ':');
    assert(Seq::<char>::empty() + h0 =~= h0);
    assert(split_on(Seq::<char>::empty(), ':') == seq![Seq::<char>::empty()]);
    assert(seq![Seq::<char>::empty()].update(0, Seq::<char>::empty() + h0) =~= seq![h0]);
    let s1 = h0;
    lemma_split_step(s1, h1);
    let s2 = s1 + c + h1;
    lemma_split_step(s2, h2);
    let s3 = s2 + c + h2;
    lemma_split_step(s3, h3);
    let s4 = s3 + c + h3;
    lemma_split_step(s4, h4);
    let s5 = s4 + c + h4;
    lemma_split_step(s5, h5);
    let s6 = s5 + c + h5;
    assert(s6 == mac_text(o));
    let parts = split_on(s6, ':');
    assert(parts =~= seq![h0, h1, h2, h3, h4, h5]);
    assert(forall|i: int| 0 <= i < 6 ==> (#[trigger] parse_hex(parts[i], 255)) == Some(o[i] as nat));
    assert(Seq::new(6, |i: int| parse_hex(parts[i], 255).unwrap() as u8) =~= o);
    lemma_le48(m.0, o);
}

/// Parsing the text of six octets (two lowercase hexadecimal digits each,
/// separated by colons) and writing the address back gives the same text.
pub proof fn lemma_mac_text_canonical(o: Seq<u8>)
    requires
        o.len() == 6,
    ensures
        spec_parse_mac_address(mac_text(o)) == Some(le48(o)),
        mac_text(MacAddress(le48(o)).octets()) == mac_text(o),
{
    lemma_le48(0, o);
    let m = MacAddress(le48(o));
    assert(m.octets() == o);
    lemma_mac_text_roundtrip(m);
}

impl MacAddress {
    /// The six octets of the address, in transmission order.
    pub open spec fn octets(self) -> Seq<u8> {
        le48_bytes(self.0)
    }

    /// The address holds no more than 48 bits.
    pub open spec fn wf(self) -> bool {
        self.0 < 0x1_0000_0000_0000u64
    }

    /// The address made of six octets, the first transmitted first.
    pub fn from_octets(bytes: &[u8; 6]) -> (r: MacAddress)
        ensures
            r.0 == le48(bytes@),
            r.wf(),
            r.octets() == bytes@,
    {
        proof {
            lemma_le48(0, bytes@);
        }
        MacAddress(
            (bytes[0] as u64) | ((bytes[1] as u64) << 8u64) | ((bytes[2] as u64) << 16u64) | ((
            bytes[3] as u64) << 24u64) | ((bytes[4] as u64) << 32u64) | ((bytes[5] as u64)
                << 40u64),
        )
    }

    /// The address with the given 48-bit value, or `None` when the value does
    /// not fit in 48 bits.
    pub fn try_from_u64(value: u64) -> (r: Option<MacAddress>)
        ensures
            r == (if value < 0x1_0000_0000_0000u64 {
                Some(MacAddress(value))
            } else {
                None
            }),
    {
        if value < 0x1_0000_0000_0000u64 {
            Some(MacAddress(value))
        } else {
            None
        }
    }

    /// The six octets of the address.
    pub fn to_vec(&self) -> (r: [u8; 6])
        ensures
            r@ == self.octets(),
    {
        let v = self.0;
        let r = [
            v as u8,
            (v >> 8u64) as u8,
            (v >> 16u64) as u8,
            (v >> 24u64) as u8,
            (v >> 32u64) as u8,
            (v >> 40u64) as u8,
        ];
        assert(r@ =~= self.octets());
        r
    }

    /// Whether the group bit, the low bit of the first octet, is set.
    pub fn is_multicast(&self) -> (b: bool)
        ensures
            b == (self.octets()[0] & 1u8 == 1u8),
    {
        (self.0 as u8) & 1u8 == 1u8
    }

    /// Whether all six octets are 0xff.
    pub fn is_broadcast(&self) -> (b: bool)
        ensures
            b == (self.octets() == seq![0xffu8, 0xffu8, 0xffu8, 0xffu8, 0xffu8, 0xffu8]),
    {
        let v = self.0;
        let b = v & 0xffff_ffff_ffffu64 == 0xffff_ffff_ffffu64;
        assert(b == (v as u8 == 0xffu8 && (v >> 8u64) as u8 == 0xffu8 && (v >> 16u64) as u8
            == 0xffu8 && (v >> 24u64) as u8 == 0xffu8 && (v >> 32u64) as u8 == 0xffu8 && (v
            >> 40u64) as u8 == 0xffu8)) by (bit_vector)
            requires
                b == (v & 0xffff_ffff_ffffu64 == 0xffff_ffff_ffffu64),
        ;
        if b {
            assert(self.octets() =~= seq![0xffu8, 0xffu8, 0xffu8, 0xffu8, 0xffu8, 0xffu8]);
        } else {
            assert(self.octets() != seq![0xffu8, 0xffu8, 0xffu8, 0xffu8, 0xffu8, 0xffu8]) by {
                let o = self.octets();
                let f = seq![0xffu8, 0xffu8, 0xffu8, 0xffu8, 0xffu8, 0xffu8];
                if o == f {
                    assert(o[0] == f[0] && o[1] == f[1] && o[2] == f[2] && o[3] == f[3] && o[4]
                        == f[4] && o[5] == f[5]);
                }
            }
        }
        b
    }

    /// The address as text, such as `00:0b:85:71:20:ce`.
    pub fn to_string(&self) -> (r: String)
        ensures
            r@ == mac_text(self.octets()),
    {
        let o = self.to_vec();
        let mut s = String::new();
        push_hex_byte(&mut s, o[0]);
        s.push(':');
        push_hex_byte(&mut s, o[1]);
        s.push(':');
        push_hex_byte(&mut s, o[2]);
        s.push(':');
        push_hex_byte(&mut s, o[3]);
        s.push(':');
        push_hex_byte(&mut s, o[4]);
        s.push(':');
        push_hex_byte(&mut s, o[5]);
        assert(s@ =~= mac_text(self.octets()));
        s
    }
}

impl From<&[u8; 6]> for MacAddress {
    fn from(bytes: &[u8; 6]) -> (r: MacAddress) {
        MacAddress::from_octets(bytes)
    }
}

impl vstd::std_specs::convert::FromSpecImpl<&[u8; 6]> for MacAddress {
    open spec fn obeys_from_spec() -> bool {
        true
    }

    open spec fn from_spec(bytes: &[u8; 6]) -> MacAddress {
        MacAddress(le48(bytes@))
    }
}

/// Parses an address written as six colon-separated hexadecimal octets.
pub fn parse_mac_address(s: &str) -> (r: Option<MacAddress>)
    ensures
        r matches Some(m) ==> spec_parse_mac_address(s@) == Some(m.0) && m.wf(),
        r is None ==> spec_parse_mac_address(s@) is None,
{
    let cs = chars_of(s);
    let seps = split_positions(&cs, ':');
    let ghost parts = split_on(s@, ':');
    if seps.len() != 5 {
        return None;
    }
    let mut bytes: Vec<u8> = Vec::new();
    let mut k: usize = 0;
    while k < 6
        invariant
            seps@.len() == 5,
            parts == split_on(cs@, ':'),
            cs@ == s@,
            parts.len() == 6,
            k <= 6,
            bytes@.len() == k,
            forall|i: int|
                0 <= i <= 5 ==> 0 <= #[trigger] piece_start(seps@, i) <= piece_end(
                    seps@,
                    i,
                    cs@.len() as int,
                ) <= cs@.len() && parts[i] == cs@.subrange(
                    piece_start(seps@, i),
                    piece_end(seps@, i, cs@.len() as int),
                ),
            forall|i: int|
                0 <= i < k ==> (#[trigger] parse_hex(parts[i], 255)) == Some(bytes@[i] as nat),
        decreases 6 - k,
    {
        assert(0 <= piece_start(seps@, k as int) <= cs@.len());
        assert(k > 0 ==> piece_start(seps@, k as int) == seps@[k - 1] + 1);
        let lo = if k == 0 {
            0
        } else {
            seps[k - 1] + 1
        };
        let hi = if k < 5 {
            seps[k]
        } else {
            cs.len()
        };
        assert(lo == piece_start(seps@, k as int));
        assert(hi == piece_end(seps@, k as int, cs@.len() as int));
        match parse_hex_range(&cs, lo, hi, 255) {
            Some(v) => {
                bytes.push(v as u8);
            },
            None => {
                assert(parse_hex(parts[k as int], 255) is None);
                return None;
            },
        }
        k = k + 1;
    }
    let arr = [bytes[0], bytes[1], bytes[2], bytes[3], bytes[4], bytes[5]];
    assert(arr@ =~= Seq::new(6, |i: int| parse_hex(parts[i], 255).unwrap() as u8));
    Some(MacAddress::from_octets(&arr))
}

/// The type field of the frame control.
#[derive(Clone, Copy, PartialEq, Eq, Structural, Debug)]
pub enum FrameType {
    Mgmt,
    Ctl,
    Data,
    Ext,
}

impl FrameType {
    /// The two-bit code of the frame type.
    pub open spec fn spec_value(self) -> u8 {
        match self {
            FrameType::Mgmt => 0,
            FrameType::Ctl => 1,
            FrameType::Data => 2,
            FrameType::Ext => 3,
        }
    }

    /// The frame type with the given two-bit code.
    pub open spec fn spec_from_value(v: u8) -> FrameType {
        if v == 0 {
            FrameType::Mgmt
        } else if v == 1 {
            FrameType::Ctl
        } else if v == 2 {
            FrameType::Data
        } else {
            FrameType::Ext
        }
    }

    /// The two-bit code of the frame type.
    pub fn value(&self) -> (r: u8)
        ensures
            r == self.spec_value(),
    {
        match self {
            FrameType::Mgmt => 0,
            FrameType::Ctl => 1,
            FrameType::Data => 2,
            FrameType::Ext => 3,
        }
    }

    fn from_value(v: u8) -> (r: FrameType)
        ensures
            r == FrameType::spec_from_value(v),
    {
        if v == 0 {
            FrameType::Mgmt
        } else if v == 1 {
            FrameType::Ctl
        } else if v == 2 {
            FrameType::Data
        } else {
            FrameType::Ext
        }
    }
}

/// Subtypes of management frames.
#[derive(Clone, Copy, PartialEq, Eq, Structural, Debug)]
pub enum ManagementSubType {
    AssocReq,
    AssocResp,
    ReassocReq,
    ReassocResp,
    ProbeReq,
    ProbeResp,
    Beacon,
    Atim,
    Disassoc,
    Auth,
    Deauth,
    Action,
}

impl ManagementSubType {
    /// The four-bit subtype code.
    pub fn value(&self) -> (r: u8)
        ensures
            r == match self {
                ManagementSubType::AssocReq => 0u8,
                ManagementSubType::AssocResp => 1u8,
                ManagementSubType::ReassocReq => 2u8,
                ManagementSubType::ReassocResp => 3u8,
                ManagementSubType::ProbeReq => 4u8,
                ManagementSubType::ProbeResp => 5u8,
                ManagementSubType::Beacon => 8u8,
                ManagementSubType::Atim => 9u8,
                ManagementSubType::Disassoc => 10u8,
                ManagementSubType::Auth => 11u8,
                ManagementSubType::Deauth => 12u8,
                ManagementSubType::Action => 13u8,
            },
    {
        match self {
            ManagementSubType::AssocReq => 0,
            ManagementSubType::AssocResp => 1,
            ManagementSubType::ReassocReq => 2,
            ManagementSubType::ReassocResp => 3,
            ManagementSubType::ProbeReq => 4,
            ManagementSubType::ProbeResp => 5,
            ManagementSubType::Beacon => 8,
            ManagementSubType::Atim => 9,
            ManagementSubType::Disassoc => 10,
            ManagementSubType::Auth => 11,
            ManagementSubType::Deauth => 12,
            ManagementSubType::Action => 13,
        }
    }
}

/// Subtypes of data frames.
#[derive(Clone, Copy, PartialEq, Eq, Structural, Debug)]
pub enum DataSubType {
    Data,
    Null,
    Qos,
    QosNull,
}

impl DataSubType {
    /// The four-bit subtype code.
    pub fn value(&self) -> (r: u8)
        ensures
            r == match self {
                DataSubType::Data => 0u8,
                DataSubType::Null => 4u8,
                DataSubType::Qos => 8u8,
                DataSubType::QosNull => 12u8,
            },
    {
        match self {
            DataSubType::Data => 0,
            DataSubType::Null => 4,
            DataSubType::Qos => 8,
            DataSubType::QosNull => 12,
        }
    }
}

/// The fields of the frame control and duration, the first four bytes of a frame.
#[derive(Clone, Copy, PartialEq, Eq, Structural, Debug)]
pub struct FrameFields {
    pub version: u8,
    pub ftype: FrameType,
    pub stype: u8,
    pub to_ds: u8,
    pub from_ds: u8,
    pub more_frags: u8,
    pub retry: u8,
    pub pm: u8,
    pub more_data: u8,
    pub protected: u8,
    pub order: u8,
    pub duration_id: u16,
}

/// Each field fits its bit width: two bits of version, four of subtype, one per flag.
pub open spec fn fields_wf(f: FrameFields) -> bool {
    &&& f.version < 4
    &&& f.stype < 16
    &&& f.to_ds < 2
    &&& f.from_ds < 2
    &&& f.more_frags < 2
    &&& f.retry < 2
    &&& f.pm < 2
    &&& f.more_data < 2
    &&& f.protected < 2
    &&& f.order < 2
}

/// The first byte of the frame control: version, type, subtype from the low bits up.
pub open spec fn fc0(f: FrameFields) -> u8 {
    (f.version + 4 * f.ftype.spec_value() + 16 * f.stype) as u8
}

/// The second byte of the frame control: the eight flags from the low bit up.
pub open spec fn fc1(f: FrameFields) -> u8 {
    (f.to_ds + 2 * f.from_ds + 4 * f.more_frags + 8 * f.retry + 16 * f.pm + 32 * f.more_data + 64
        * f.protected + 128 * f.order) as u8
}

/// The four bytes that carry the fields.
pub open spec fn fields_bytes(f: FrameFields) -> Seq<u8> {
    seq![fc0(f), fc1(f)] + le16_bytes(f.duration_id)
}

/// The fields read from the first four bytes of `s`.
pub open spec fn fields_of_bytes(s: Seq<u8>) -> FrameFields {
    let b0 = s[0];
    let b1 = s[1];
    FrameFields {
        version: b0 % 4,
        ftype: FrameType::spec_from_value((b0 / 4) % 4),
        stype: b0 / 16,
        to_ds: b1 % 2,
        from_ds: (b1 / 2) % 2,
        more_frags: (b1 / 4) % 2,
        retry: (b1 / 8) % 2,
        pm: (b1 / 16) % 2,
        more_data: (b1 / 32) % 2,
        protected: (b1 / 64) % 2,
        order: b1 / 128,
        duration_id: le16(s[2], s[3]),
    }
}

proof fn lemma_fc0(v: u8, t: u8, st: u8)
    requires
        v < 4,
        t < 4,
        st < 16,
    ensures
        ((v + 4 * t + 16 * st) as u8) % 4 == v,
        (((v + 4 * t + 16 * st) as u8) / 4) % 4 == t,
        ((v + 4 * t + 16 * st) as u8) / 16 == st,
{
    assert(v < 4 && t < 4 && st < 16 ==> {
        let b = (v + 4 * t + 16 * st) as u8;
        &&& b % 4 == v
        &&& (b / 4) % 4 == t
        &&& b / 16 == st
    }) by (bit_vector);
}

proof fn lemma_fc1(a: u8, b: u8, c: u8, d: u8, e: u8, f: u8, g: u8, h: u8)
    requires
        a < 2 && b < 2 && c < 2 && d < 2 && e < 2 && f < 2 && g < 2 && h < 2,
    ensures
        ({
            let x = (a + 2 * b + 4 * c + 8 * d + 16 * e + 32 * f + 64 * g + 128 * h) as u8;
            &&& x % 2 == a
            &&& (x / 2) % 2 == b
            &&& (x / 4) % 2 == c
            &&& (x / 8) % 2 == d
            &&& (x / 16) % 2 == e
            &&& (x / 32) % 2 == f
            &&& (x / 64) % 2 == g
            &&& x / 128 == h
        }),
{
    assert(a < 2 && b < 2 && c < 2 && d < 2 && e < 2 && f < 2 && g < 2 && h < 2 ==> {
        let x = (a + 2 * b + 4 * c + 8 * d + 16 * e + 32 * f + 64 * g + 128 * h) as u8;
        &&& x % 2 == a
        &&& (x / 2) % 2 == b
        &&& (x / 4) % 2 == c
        &&& (x / 8) % 2 == d
        &&& (x / 16) % 2 == e
        &&& (x / 32) % 2 == f
        &&& (x / 64) % 2 == g
        &&& x / 128 == h
    }) by (bit_vector);
}

proof fn lemma_fc_bytes(b0: u8, b1: u8)
    ensures
        b0 == ((b0 % 4) + 4 * ((b0 / 4) % 4) + 16 * (b0 / 16)) as u8,
        b1 == ((b1 % 2) + 2 * ((b1 / 2) % 2) + 4 * ((b1 / 4) % 2) + 8 * ((b1 / 8) % 2) + 16 * ((
        b1 / 16) % 2) + 32 * ((b1 / 32) % 2) + 64 * ((b1 / 64) % 2) + 128 * (b1 / 128)) as u8,
{
    assert(b0 == ((b0 % 4) + 4 * ((b0 / 4) % 4) + 16 * (b0 / 16)) as u8) by (bit_vector);
    assert(b1 == ((b1 % 2) + 2 * ((b1 / 2) % 2) + 4 * ((b1 / 4) % 2) + 8 * ((b1 / 8) % 2) + 16
        * ((b1 / 16) % 2) + 32 * ((b1 / 32) % 2) + 64 * ((b1 / 64) % 2) + 128 * (b1 / 128)) as u8)
        by (bit_vector);
}

/// Encoding the fields and reading them back gives the same fields.
pub proof fn lemma_fields_roundtrip(f: FrameFields)
    requires
        fields_wf(f),
    ensures
        fields_bytes(f).len() == 4,
        fields_of_bytes(fields_bytes(f)) == f,
{
    lemma_fc0(f.version, f.ftype.spec_value(), f.stype);
    lemma_fc1(f.to_ds, f.from_ds, f.more_frags, f.retry, f.pm, f.more_data, f.protected, f.order);
    lemma_le16(f.duration_id, 0, 0);
    let s = fields_bytes(f);
    assert(s[2] == f.duration_id as u8);
    assert(s[3] == (f.duration_id >> 8u16) as u8);
}

/// Reading the fields of four bytes and encoding them gives the same bytes.
pub proof fn lemma_bytes_roundtrip(s: Seq<u8>)
    requires
        s.len() >= 4,
    ensures
        fields_wf(fields_of_bytes(s)),
        fields_bytes(fields_of_bytes(s)) == s.take(4),
{
    let f = fields_of_bytes(s);
    lemma_fc_bytes(s[0], s[1]);
    lemma_le16(0, s[2], s[3]);
    assert(f.ftype.spec_value() == (s[0] / 4) % 4);
    assert(fields_bytes(f) =~= s.take(4));
}

/// An IEEE 802.11 frame: the frame control fields, the duration, and the
/// body that follows them.
#[derive(Debug)]
pub struct Ieee80211 {
    pub version: u8,
    pub ftype: FrameType,
    pub stype: u8,
    pub to_ds: u8,
    pub from_ds: u8,
    pub more_frags: u8,
    pub retry: u8,
    pub pm: u8,
    pub more_data: u8,
    pub protected: u8,
    pub order: u8,
    pub duration_id: u16,
    pub payload: Vec<u8>,
}

/// The frame that `s` holds: `None` when it is shorter than four bytes.
pub open spec fn spec_parse_ieee80211(s: Seq<u8>) -> Option<(FrameFields, Seq<u8>)> {
    if s.len() < 4 {
        None
    } else {
        Some((fields_of_bytes(s), s.skip(4)))
    }
}

/// The bytes of a frame.
pub open spec fn ieee80211_bytes(f: FrameFields, payload: Seq<u8>) -> Seq<u8> {
    fields_bytes(f) + payload
}

/// Decoding the bytes of a frame gives back the frame.
pub proof fn lemma_ieee80211_roundtrip(f: FrameFields, payload: Seq<u8>)
    requires
        fields_wf(f),
    ensures
        spec_parse_ieee80211(ieee80211_bytes(f, payload)) == Some((f, payload)),
{
    lemma_fields_roundtrip(f);
    let s = ieee80211_bytes(f, payload);
    assert(s.take(4) =~= fields_bytes(f));
    assert(s.skip(4) =~= payload);
    assert(fields_of_bytes(s) == fields_of_bytes(fields_bytes(f)));
}

/// Encoding a decoded frame gives back its bytes.
pub proof fn lemma_ieee80211_bytes_roundtrip(s: Seq<u8>)
    requires
        spec_parse_ieee80211(s) is Some,
    ensures
        fields_wf(spec_parse_ieee80211(s).unwrap().0),
        ieee80211_bytes(spec_parse_ieee80211(s).unwrap().0, spec_parse_ieee80211(s).unwrap().1)
            == s,
{
    lemma_bytes_roundtrip(s);
    assert(s.take(4) + s.skip(4) =~= s);
}

/// The addressing kind of a frame, given by its ToDS and FromDS bits.
#[derive(Clone, Copy, PartialEq, Eq, Structural, Debug)]
pub enum DsKind {
    /// ToDS 0, FromDS 0: between stations of one basic service set.
    Ibss,
    /// ToDS 0, FromDS 1: from an access point to a station.
    FromAp,
    /// ToDS 1, FromDS 0: from a station to an access point.
    ToAp,
    /// ToDS 1, FromDS 1: between distribution systems.
    Wds,
}

/// The kind of a frame with the given flags, when both are bits.
pub open spec fn ds_kind(to_ds: u8, from_ds: u8) -> Option<DsKind> {
    if to_ds == 0 && from_ds == 0 {
        Some(DsKind::Ibss)
    } else if to_ds == 0 && from_ds == 1 {
        Some(DsKind::FromAp)
    } else if to_ds == 1 && from_ds == 0 {
        Some(DsKind::ToAp)
    } else if to_ds == 1 && from_ds == 1 {
        Some(DsKind::Wds)
    } else {
        None
    }
}

/// The bytes of the body before the payload: three addresses and the
/// sequence control, and a fourth address between distribution systems.
pub open spec fn body_header_len(kind: DsKind) -> nat {
    if kind == DsKind::Wds {
        26
    } else {
        20
    }
}

/// A frame with its body decoded: the addresses in the order in which they
/// are transmitted (`a4` only between distribution systems, else 0).
pub struct ChildModel {
    pub kind: DsKind,
    pub fields: FrameFields,
    pub a1: u64,
    pub a2: u64,
    pub a3: u64,
    pub seq_ctrl: u16,
    pub a4: u64,
    pub payload: Seq<u8>,
}

impl ChildModel {
    /// The source address: the second address within a basic service set and
    /// towards an access point, the third from an access point, the fourth
    /// between distribution systems.
    pub open spec fn source(self) -> u64 {
        match self.kind {
            DsKind::Ibss => self.a2,
            DsKind::FromAp => self.a3,
            DsKind::ToAp => self.a2,
            DsKind::Wds => self.a4,
        }
    }

    /// The destination address: the first address within a basic service set
    /// and from an access point, the third otherwise.
    pub open spec fn destination(self) -> u64 {
        match self.kind {
            DsKind::Ibss => self.a1,
            DsKind::FromAp => self.a1,
            DsKind::ToAp => self.a3,
            DsKind::Wds => self.a3,
        }
    }

    /// The BSSID, which frames between distribution systems do not carry.
    pub open spec fn bssid(self) -> Option<u64> {
        match self.kind {
            DsKind::Ibss => Some(self.a3),
            DsKind::FromAp => Some(self.a2),
            DsKind::ToAp => Some(self.a1),
            DsKind::Wds => None,
        }
    }

    /// Every address fits in 48 bits, and the kind agrees with the flags.
    pub open spec fn wf(self) -> bool {
        &&& fields_wf(self.fields)
        &&& ds_kind(self.fields.to_ds, self.fields.from_ds) == Some(self.kind)
        &&& self.a1 < 0x1_0000_0000_0000u64
        &&& self.a2 < 0x1_0000_0000_0000u64
        &&& self.a3 < 0x1_0000_0000_0000u64
        &&& self.a4 < 0x1_0000_0000_0000u64
        &&& (self.kind != DsKind::Wds ==> self.a4 == 0)
    }
}

/// The body of a frame of the given fields decoded: `None` when the flags
/// are not bits or the body is shorter than its addresses.
pub open spec fn spec_parse_child(f: FrameFields, p: Seq<u8>) -> Option<ChildModel> {
    match ds_kind(f.to_ds, f.from_ds) {
        None => None,
        Some(kind) => if p.len() < body_header_len(kind) {
            None
        } else {
            Some(
                ChildModel {
                    kind,
                    fields: f,
                    a1: le48(p.subrange(0, 6)),
                    a2: le48(p.subrange(6, 12)),
                    a3: le48(p.subrange(12, 18)),
                    seq_ctrl: le16(p[18], p[19]),
                    a4: if kind == DsKind::Wds {
                        le48(p.subrange(20, 26))
                    } else {
                        0
                    },
                    payload: p.skip(body_header_len(kind) as int),
                },
            )
        },
    }
}

/// The body bytes of a decoded frame.
pub open spec fn child_body_bytes(c: ChildModel) -> Seq<u8> {
    le48_bytes(c.a1) + le48_bytes(c.a2) + le48_bytes(c.a3) + le16_bytes(c.seq_ctrl) + (if c.kind
        == DsKind::Wds {
        le48_bytes(c.a4)
    } else {
        Seq::<u8>::empty()
    }) + c.payload
}

/// Decoding the body bytes of a well-formed frame gives back the frame.
pub proof fn lemma_child_roundtrip(c: ChildModel)
    requires
        c.wf(),
    ensures
        spec_parse_child(c.fields, child_body_bytes(c)) == Some(c),
{
    let p = child_body_bytes(c);
    lemma_le48(c.a1, seq![0u8, 0u8, 0u8, 0u8, 0u8, 0u8]);
    lemma_le48(c.a2, seq![0u8, 0u8, 0u8, 0u8, 0u8, 0u8]);
    lemma_le48(c.a3, seq![0u8, 0u8, 0u8, 0u8, 0u8, 0u8]);
    lemma_le48(c.a4, seq![0u8, 0u8, 0u8, 0u8, 0u8, 0u8]);
    lemma_le16(c.seq_ctrl, 0, 0);
    assert(p.subrange(0, 6) =~= le48_bytes(c.a1));
    assert(p.subrange(6, 12) =~= le48_bytes(c.a2));
    assert(p.subrange(12, 18) =~= le48_bytes(c.a3));
    assert(p[18] == le16_bytes(c.seq_ctrl)[0]);
    assert(p[19] == le16_bytes(c.seq_ctrl)[1]);
    if c.kind == DsKind::Wds {
        assert(p.subrange(20, 26) =~= le48_bytes(c.a4));
    }
    assert(p.skip(body_header_len(c.kind) as int) =~= c.payload);
    let d = spec_parse_child(c.fields, p).unwrap();
    assert(d.a1 == c.a1 && d.a2 == c.a2 && d.a3 == c.a3 && d.a4 == c.a4);
    assert(d.payload =~= c.payload);
}

/// Encoding a decoded body gives back its bytes.
pub proof fn lemma_child_bytes_roundtrip(f: FrameFields, p: Seq<u8>)
    requires
        spec_parse_child(f, p) is Some,
    ensures
        child_body_bytes(spec_parse_child(f, p).unwrap()) == p,
        spec_parse_child(f, p).unwrap().a1 < 0x1_0000_0000_0000u64,
        spec_parse_child(f, p).unwrap().a2 < 0x1_0000_0000_0000u64,
        spec_parse_child(f, p).unwrap().a3 < 0x1_0000_0000_0000u64,
        spec_parse_child(f, p).unwrap().a4 < 0x1_0000_0000_0000u64,
{
    let c = spec_parse_child(f, p).unwrap();
    lemma_le48(0, p.subrange(0, 6));
    lemma_le48(0, p.subrange(6, 12));
    lemma_le48(0, p.subrange(12, 18));
    lemma_le16(0, p[18], p[19]);
    if c.kind == DsKind::Wds {
        lemma_le48(0, p.subrange(20, 26));
        assert(child_body_bytes(c) =~= p);
    } else {
        assert(child_body_bytes(c) =~= p);
    }
}

/// `s` with its address slots for source and destination replaced where a
/// new address is given.
pub open spec fn with_addresses(c: ChildModel, src: Option<u64>, dst: Option<u64>) -> ChildModel {
    let s = match src {
        Some(v) => v,
        None => c.source(),
    };
    let d = match dst {
        Some(v) => v,
        None => c.destination(),
    };
    match c.kind {
        DsKind::Ibss => ChildModel { a1: d, a2: s, ..c },
        DsKind::FromAp => ChildModel { a1: d, a3: s, ..c },
        DsKind::ToAp => ChildModel { a2: s, a3: d, ..c },
        DsKind::Wds => ChildModel { a3: d, a4: s, ..c },
    }
}

/// Replacing the addresses of a frame body gives it the new source and
/// destination and keeps its kind, BSSID, fields, sequence control and
/// payload; a well-formed body stays well-formed with 48-bit addresses.
pub proof fn lemma_with_addresses(c: ChildModel, src: Option<u64>, dst: Option<u64>)
    ensures
        with_addresses(c, src, dst).source() == (match src {
            Some(v) => v,
            None => c.source(),
        }),
        with_addresses(c, src, dst).destination() == (match dst {
            Some(v) => v,
            None => c.destination(),
        }),
        with_addresses(c, src, dst).kind == c.kind,
        with_addresses(c, src, dst).bssid() == c.bssid(),
        with_addresses(c, src, dst).fields == c.fields,
        with_addresses(c, src, dst).seq_ctrl == c.seq_ctrl,
        with_addresses(c, src, dst).payload == c.payload,
        c.wf() && (src matches Some(v) ==> v < 0x1_0000_0000_0000u64) && (dst matches Some(v) ==> v
            < 0x1_0000_0000_0000u64) ==> with_addresses(c, src, dst).wf(),
{
}

/// A frame whose addresses were replaced decodes with the new source and
/// destination, and with its kind, BSSID and payload unchanged.
pub proof fn lemma_with_address_decodes(f: FrameFields, p: Seq<u8>, src: Option<u64>, dst: Option<u64>)
    requires
        fields_wf(f),
        spec_parse_child(f, p) is Some,
        src matches Some(v) ==> v < 0x1_0000_0000_0000u64,
        dst matches Some(v) ==> v < 0x1_0000_0000_0000u64,
    ensures
        ({
            let c = spec_parse_child(f, p).unwrap();
            let c2 = with_addresses(c, src, dst);
            &&& spec_parse_child(f, child_body_bytes(c2)) == Some(c2)
            &&& c2.source() == (match src {
                Some(v) => v,
                None => c.source(),
            })
            &&& c2.destination() == (match dst {
                Some(v) => v,
                None => c.destination(),
            })
            &&& c2.bssid() == c.bssid()
            &&& c2.kind == c.kind
            &&& c2.payload == c.payload
        }),
{
    let c = spec_parse_child(f, p).unwrap();
    lemma_child_bytes_roundtrip(f, p);
    assert(c.wf());
    lemma_with_addresses(c, src, dst);
    lemma_child_roundtrip(with_addresses(c, src, dst));
}

/// The frame from the access point that a frame to it becomes: FromDS set
/// and ToDS cleared, the destination first, then the BSSID, then the source.
pub open spec fn from_ap_child(c: ChildModel) -> ChildModel {
    ChildModel {
        kind: DsKind::FromAp,
        fields: fields_of_kind(c.fields, DsKind::FromAp),
        a1: c.destination(),
        a2: c.a1,
        a3: c.source(),
        seq_ctrl: c.seq_ctrl,
        a4: 0,
        payload: c.payload,
    }
}

/// A frame to the access point, rewritten as sent by it, keeps its source,
/// destination and BSSID, and stays well-formed.
pub proof fn lemma_from_ap_child(c: ChildModel)
    requires
        c.kind == DsKind::ToAp,
    ensures
        from_ap_child(c).kind == DsKind::FromAp,
        from_ap_child(c).source() == c.source(),
        from_ap_child(c).destination() == c.destination(),
        from_ap_child(c).bssid() == c.bssid(),
        c.wf() ==> from_ap_child(c).wf(),
{
}

/// The name of an addressing kind.
pub open spec fn ds_name(kind: DsKind) -> Seq<char> {
    match kind {
        DsKind::ToAp => seq!['T', 'o', 'A', 'p'],
        DsKind::FromAp => seq!['F', 'r', 'o', 'm', 'A', 'p'],
        DsKind::Ibss => seq!['I', 'b', 's', 's'],
        DsKind::Wds => seq!['W', 'd', 's'],
    }
}

fn fields_valid(f: &FrameFields) -> (b: bool)
    ensures
        b == fields_wf(*f),
{
    f.version < 4 && f.stype < 16 && f.to_ds < 2 && f.from_ds < 2 && f.more_frags < 2 && f.retry
        < 2 && f.pm < 2 && f.more_data < 2 && f.protected < 2 && f.order < 2
}

fn push_fields(out: &mut Vec<u8>, f: &FrameFields)
    requires
        fields_wf(*f),
    ensures
        final(out)@ == old(out)@ + fields_bytes(*f),
{
    let t = f.ftype.value();
    out.push(f.version + 4 * t + 16 * f.stype);
    out.push(
        f.to_ds + 2 * f.from_ds + 4 * f.more_frags + 8 * f.retry + 16 * f.pm + 32 * f.more_data + 64
            * f.protected + 128 * f.order,
    );
    push_u16(out, f.duration_id);
    assert(final(out)@ =~= old(out)@ + fields_bytes(*f));
}

fn kind_of(to_ds: u8, from_ds: u8) -> (r: Option<DsKind>)
    ensures
        r == ds_kind(to_ds, from_ds),
{
    if to_ds == 0 && from_ds == 0 {
        Some(DsKind::Ibss)
    } else if to_ds == 0 && from_ds == 1 {
        Some(DsKind::FromAp)
    } else if to_ds == 1 && from_ds == 0 {
        Some(DsKind::ToAp)
    } else if to_ds == 1 && from_ds == 1 {
        Some(DsKind::Wds)
    } else {
        None
    }
}

/// The fields of a frame of the given kind: `base` with its flags set to the kind's.
pub open spec fn fields_of_kind(base: FrameFields, kind: DsKind) -> FrameFields {
    match kind {
        DsKind::Ibss => FrameFields { to_ds: 0, from_ds: 0, ..base },
        DsKind::FromAp => FrameFields { to_ds: 0, from_ds: 1, ..base },
        DsKind::ToAp => FrameFields { to_ds: 1, from_ds: 0, ..base },
        DsKind::Wds => FrameFields { to_ds: 1, from_ds: 1, ..base },
    }
}

/// Builds the frame of a decoded body: the fields and the body bytes.
fn assemble(fields: FrameFields, a1: u64, a2: u64, a3: u64, seq_ctrl: u16, a4: Option<u64>, payload: &Vec<u8>) -> (r: Result<Ieee80211, PacketError>)
    ensures
        match r {
            Ok(f) => fields_wf(fields) && f.fields() == fields && f.payload@ == le48_bytes(a1)
                + le48_bytes(a2) + le48_bytes(a3) + le16_bytes(seq_ctrl) + (match a4 {
                Some(v) => le48_bytes(v),
                None => Seq::<u8>::empty(),
            }) + payload@,
            Err(e) => !fields_wf(fields) && e == PacketError::FieldOutOfRange,
        },
{
    if !fields_valid(&fields) {
        return Err(PacketError::FieldOutOfRange);
    }
    let mut body: Vec<u8> = Vec::new();
    push_u48(&mut body, a1);
    push_u48(&mut body, a2);
    push_u48(&mut body, a3);
    push_u16(&mut body, seq_ctrl);
    match a4 {
        Some(v) => push_u48(&mut body, v),
        None => {},
    }
    push_bytes(&mut body, payload.as_slice());
    assert(body@ =~= le48_bytes(a1) + le48_bytes(a2) + le48_bytes(a3) + le16_bytes(seq_ctrl) + (
    match a4 {
        Some(v) => le48_bytes(v),
        None => Seq::<u8>::empty(),
    }) + payload@);
    Ok(
        Ieee80211 {
            version: fields.version,
            ftype: fields.ftype,
            stype: fields.stype,
            to_ds: fields.to_ds,
            from_ds: fields.from_ds,
            more_frags: fields.more_frags,
            retry: fields.retry,
            pm: fields.pm,
            more_data: fields.more_data,
            protected: fields.protected,
            order: fields.order,
            duration_id: fields.duration_id,
            payload: body,
        },
    )
}

impl Ieee80211 {
    /// The frame control fields and the duration.
    pub open spec fn fields(&self) -> FrameFields {
        FrameFields {
            version: self.version,
            ftype: self.ftype,
            stype: self.stype,
            to_ds: self.to_ds,
            from_ds: self.from_ds,
            more_frags: self.more_frags,
            retry: self.retry,
            pm: self.pm,
            more_data: self.more_data,
            protected: self.protected,
            order: self.order,
            duration_id: self.duration_id,
        }
    }

    /// The body decoded according to the frame's addressing kind.
    pub open spec fn child(&self) -> Option<ChildModel> {
        spec_parse_child(self.fields(), self.payload@)
    }

    fn get_fields(&self) -> (r: FrameFields)
        ensures
            r == self.fields(),
    {
        FrameFields {
            version: self.version,
            ftype: self.ftype,
            stype: self.stype,
            to_ds: self.to_ds,
            from_ds: self.from_ds,
            more_frags: self.more_frags,
            retry: self.retry,
            pm: self.pm,
            more_data: self.more_data,
            protected: self.protected,
            order: self.order,
            duration_id: self.duration_id,
        }
    }

    /// Decodes a frame; fails when `bytes` is shorter than four bytes.
    pub fn parse(bytes: &[u8]) -> (r: Result<Ieee80211, PacketError>)
        ensures
            match r {
                Ok(f) => spec_parse_ieee80211(bytes@) == Some((f.fields(), f.payload@)),
                Err(e) => spec_parse_ieee80211(bytes@) is None && e == PacketError::TooShort,
            },
    {
        if bytes.len() < 4 {
            return Err(PacketError::TooShort);
        }
        let b0 = bytes[0];
        let b1 = bytes[1];
        let payload = copy_range(bytes, 4, bytes.len() - 4);
        assert(payload@ =~= bytes@.skip(4));
        let f = Ieee80211 {
            version: b0 % 4,
            ftype: FrameType::from_value((b0 / 4) % 4),
            stype: b0 / 16,
            to_ds: b1 % 2,
            from_ds: (b1 / 2) % 2,
            more_frags: (b1 / 4) % 2,
            retry: (b1 / 8) % 2,
            pm: (b1 / 16) % 2,
            more_data: (b1 / 32) % 2,
            protected: (b1 / 64) % 2,
            order: b1 / 128,
            duration_id: read_u16(bytes, 2),
            payload,
        };
        assert(f.fields() == fields_of_bytes(bytes@));
        Ok(f)
    }

    /// The bytes of the frame; fails when a field does not fit its bit width.
    pub fn encode_to_vec(&self) -> (r: Result<Vec<u8>, PacketError>)
        ensures
            match r {
                Ok(v) => fields_wf(self.fields()) && v@ == ieee80211_bytes(
                    self.fields(),
                    self.payload@,
                ),
                Err(e) => !fields_wf(self.fields()) && e == PacketError::FieldOutOfRange,
            },
    {
        let f = self.get_fields();
        if !fields_valid(&f) {
            return Err(PacketError::FieldOutOfRange);
        }
        let mut out: Vec<u8> = Vec::new();
        push_fields(&mut out, &f);
        push_bytes(&mut out, self.payload.as_slice());
        assert(out@ =~= ieee80211_bytes(self.fields(), self.payload@));
        Ok(out)
    }

    /// Whether the frame carries a fourth address: it goes both to and from
    /// a distribution system.
    pub fn has_a4(&self) -> (b: bool)
        ensures
            b == (self.to_ds == 1 && self.from_ds == 1),
    {
        self.to_ds == 1 && self.from_ds == 1
    }

    /// Whether the frame is sent from a station to an access point.
    pub fn is_to_ap(&self) -> (b: bool)
        ensures
            b == (self.to_ds == 1 && self.from_ds == 0),
    {
        self.to_ds == 1 && self.from_ds == 0
    }

    /// Whether the frame is a management frame.
    pub fn is_mgmt(&self) -> (b: bool)
        ensures
            b == (self.ftype == FrameType::Mgmt),
    {
        self.ftype == FrameType::Mgmt
    }

    /// Whether the frame is a data frame.
    pub fn is_data(&self) -> (b: bool)
        ensures
            b == (self.ftype == FrameType::Data),
    {
        self.ftype == FrameType::Data
    }

    /// Whether the frame is a probe request: a management frame of the probe
    /// request subtype.
    pub fn is_probe_req(&self) -> (b: bool)
        ensures
            b == (self.ftype == FrameType::Mgmt && self.stype == 4),
    {
        self.ftype == FrameType::Mgmt && self.stype == ManagementSubType::ProbeReq.value()
    }

    /// Decodes the body according to the addressing kind; fails when the
    /// body is shorter than its addresses.
    pub fn specialize(&self) -> (r: Result<Ieee80211Child, PacketError>)
        ensures
            match r {
                Ok(c) => self.child() == Some(c@),
                Err(_) => self.child() is None,
            },
    {
        let fields = self.get_fields();
        let kind = match kind_of(self.to_ds, self.from_ds) {
            Some(k) => k,
            None => return Err(PacketError::FieldOutOfRange),
        };
        let n: usize = match kind {
            DsKind::Wds => 26,
            _ => 20,
        };
        let p = self.payload.as_slice();
        if p.len() < n {
            return Err(PacketError::TooShort);
        }
        let a1 = MacAddress(read_u48(p, 0));
        let a2 = MacAddress(read_u48(p, 6));
        let a3 = MacAddress(read_u48(p, 12));
        let seq_ctrl = read_u16(p, 18);
        let payload = copy_range(p, n, p.len() - n);
        assert(payload@ =~= self.payload@.skip(n as int));
        let c = match kind {
            DsKind::Ibss => Ieee80211Child::Ieee80211Ibss(
                Ieee80211Ibss {
                    duration_id: fields.duration_id,
                    ftype: fields.ftype,
                    more_data: fields.more_data,
                    more_frags: fields.more_frags,
                    order: fields.order,
                    pm: fields.pm,
                    protected: fields.protected,
                    retry: fields.retry,
                    stype: fields.stype,
                    version: fields.version,
                    destination: a1,
                    source: a2,
                    bssid: a3,
                    seq_ctrl,
                    payload,
                },
            ),
            DsKind::FromAp => Ieee80211Child::Ieee80211FromAp(
                Ieee80211FromAp {
                    duration_id: fields.duration_id,
                    ftype: fields.ftype,
                    more_data: fields.more_data,
                    more_frags: fields.more_frags,
                    order: fields.order,
                    pm: fields.pm,
                    protected: fields.protected,
                    retry: fields.retry,
                    stype: fields.stype,
                    version: fields.version,
                    destination: a1,
                    bssid: a2,
                    source: a3,
                    seq_ctrl,
                    payload,
                },
            ),
            DsKind::ToAp => Ieee80211Child::Ieee80211ToAp(
                Ieee80211ToAp {
                    duration_id: fields.duration_id,
                    ftype: fields.ftype,
                    more_data: fields.more_data,
                    more_frags: fields.more_frags,
                    order: fields.order,
                    pm: fields.pm,
                    protected: fields.protected,
                    retry: fields.retry,
                    stype: fields.stype,
                    version: fields.version,
                    bssid: a1,
                    source: a2,
                    destination: a3,
                    seq_ctrl,
                    payload,
                },
            ),
            DsKind::Wds => Ieee80211Child::Ieee80211Wds(
                Ieee80211Wds {
                    duration_id: fields.duration_id,
                    ftype: fields.ftype,
                    more_data: fields.more_data,
                    more_frags: fields.more_frags,
                    order: fields.order,
                    pm: fields.pm,
                    protected: fields.protected,
                    retry: fields.retry,
                    stype: fields.stype,
                    version: fields.version,
                    receiver: a1,
                    transmitter: a2,
                    destination: a3,
                    seq_ctrl,
                    source: MacAddress(read_u48(p, 20)),
                    payload,
                },
            ),
        };
        assert(c@ == self.child().unwrap());
        Ok(c)
    }

    /// The name of the frame's addressing kind: `ToAp`, `FromAp`, `Ibss` or `Wds`.
    pub fn get_ds(&self) -> (r: String)
        requires
            self.child() is Some,
        ensures
            r@ == ds_name(self.child().unwrap().kind),
    {
        let mut s = String::new();
        if self.to_ds == 1 && self.from_ds == 0 {
            s.push('T');
            s.push('o');
            s.push('A');
            s.push('p');
        } else if self.to_ds == 0 && self.from_ds == 1 {
            s.push('F');
            s.push('r');
            s.push('o');
            s.push('m');
            s.push('A');
            s.push('p');
        } else if self.to_ds == 0 && self.from_ds == 0 {
            s.push('I');
            s.push('b');
            s.push('s');
            s.push('s');
        } else {
            s.push('W');
            s.push('d');
            s.push('s');
        }
        assert(s@ =~= ds_name(self.child().unwrap().kind));
        s
    }

    /// The source address.
    pub fn get_source(&self) -> (r: MacAddress)
        requires
            self.child() is Some,
        ensures
            r.0 == self.child().unwrap().source(),
            r.wf(),
    {
        let p = self.payload.as_slice();
        proof {
            lemma_le48(0, p@.subrange(6, 12));
            lemma_le48(0, p@.subrange(12, 18));
            if self.to_ds == 1 && self.from_ds == 1 {
                lemma_le48(0, p@.subrange(20, 26));
            }
        }
        if self.to_ds == 0 && self.from_ds == 1 {
            MacAddress(read_u48(p, 12))
        } else if self.to_ds == 1 && self.from_ds == 1 {
            MacAddress(read_u48(p, 20))
        } else {
            MacAddress(read_u48(p, 6))
        }
    }

    /// The destination address.
    pub fn get_destination(&self) -> (r: MacAddress)
        requires
            self.child() is Some,
        ensures
            r.0 == self.child().unwrap().destination(),
            r.wf(),
    {
        let p = self.payload.as_slice();
        proof {
            lemma_le48(0, p@.subrange(0, 6));
            lemma_le48(0, p@.subrange(12, 18));
        }
        if self.to_ds == 0 {
            MacAddress(read_u48(p, 0))
        } else {
            MacAddress(read_u48(p, 12))
        }
    }

    /// The BSSID, which frames between distribution systems do not carry.
    pub fn get_bssid(&self) -> (r: Option<MacAddress>)
        requires
            self.child() is Some,
        ensures
            match self.child().unwrap().bssid() {
                Some(v) => r == Some(MacAddress(v)),
                None => r is None,
            },
    {
        let p = self.payload.as_slice();
        if self.to_ds == 0 && self.from_ds == 0 {
            Some(MacAddress(read_u48(p, 12)))
        } else if self.to_ds == 0 && self.from_ds == 1 {
            Some(MacAddress(read_u48(p, 6)))
        } else if self.to_ds == 1 && self.from_ds == 0 {
            Some(MacAddress(read_u48(p, 0)))
        } else {
            None
        }
    }

    /// The frame with its source and destination replaced where given.
    pub fn with_address(&self, source: Option<MacAddress>, destination: Option<MacAddress>) -> (r:
        Ieee80211)
        requires
            self.child() is Some,
            fields_wf(self.fields()),
        ensures
            r.fields() == self.fields(),
            r.payload@ == child_body_bytes(
                with_addresses(
                    self.child().unwrap(),
                    match source {
                        Some(s) => Some(s.0),
                        None => None,
                    },
                    match destination {
                        Some(d) => Some(d.0),
                        None => None,
                    },
                ),
            ),
    {
        let r = match self.specialize() {
            Ok(Ieee80211Child::Ieee80211ToAp(frame)) => frame.with_address(
                source,
                destination,
            ).try_into_ieee80211(),
            Ok(Ieee80211Child::Ieee80211FromAp(frame)) => frame.with_address(
                source,
                destination,
            ).try_into_ieee80211(),
            Ok(Ieee80211Child::Ieee80211Ibss(frame)) => frame.with_address(
                source,
                destination,
            ).try_into_ieee80211(),
            Ok(Ieee80211Child::Ieee80211Wds(frame)) => frame.with_address(
                source,
                destination,
            ).try_into_ieee80211(),
            Err(e) => Err(e),
        };
        match r {
            Ok(f) => f,
            Err(_) => {
                assert(false);
                self.clone_frame()
            },
        }
    }

    fn clone_frame(&self) -> (r: Ieee80211)
        ensures
            r.fields() == self.fields(),
            r.payload@ == self.payload@,
    {
        Ieee80211 {
            version: self.version,
            ftype: self.ftype,
            stype: self.stype,
            to_ds: self.to_ds,
            from_ds: self.from_ds,
            more_frags: self.more_frags,
            retry: self.retry,
            pm: self.pm,
            more_data: self.more_data,
            protected: self.protected,
            order: self.order,
            duration_id: self.duration_id,
            payload: clone_bytes(&self.payload),
        }
    }

    /// The frame sent by a station to an access point, turned into the frame
    /// the access point sends on: the same fields, addresses and payload with
    /// ToDS cleared and FromDS set. Fails for frames of other kinds.
    pub fn into_from_ap(&self) -> (r: Result<Ieee80211FromAp, PacketError>)
        requires
            self.child() is Some,
        ensures
            match r {
                Ok(f) => self.child().unwrap().kind == DsKind::ToAp && f@ == from_ap_child(self.child().unwrap()),
                Err(e) => self.child().unwrap().kind != DsKind::ToAp
                    && e == PacketError::UnexpectedFrameKind {
                    from_ds: self.from_ds,
                    to_ds: self.to_ds,
                },
            },
    {
        match self.specialize() {
            Ok(Ieee80211Child::Ieee80211ToAp(frame_to_ap)) => Ok(
                Ieee80211FromAp {
                    duration_id: frame_to_ap.duration_id,
                    ftype: frame_to_ap.ftype,
                    more_data: frame_to_ap.more_data,
                    more_frags: frame_to_ap.more_frags,
                    order: frame_to_ap.order,
                    pm: frame_to_ap.pm,
                    protected: frame_to_ap.protected,
                    retry: frame_to_ap.retry,
                    stype: frame_to_ap.stype,
                    version: frame_to_ap.version,
                    bssid: frame_to_ap.bssid,
                    source: frame_to_ap.source,
                    destination: frame_to_ap.destination,
                    seq_ctrl: frame_to_ap.seq_ctrl,
                    payload: frame_to_ap.payload,
                },
            ),
            _ => Err(PacketError::UnexpectedFrameKind { from_ds: self.from_ds, to_ds: self.to_ds }),
        }
    }
}

/// The body of a frame, decoded according to its addressing kind.
#[derive(Debug)]
pub enum Ieee80211Child {
    Ieee80211ToAp(Ieee80211ToAp),
    Ieee80211FromAp(Ieee80211FromAp),
    Ieee80211Ibss(Ieee80211Ibss),
    Ieee80211Wds(Ieee80211Wds),
}

impl View for Ieee80211Child {
    type V = ChildModel;

    open spec fn view(&self) -> ChildModel {
        match self {
            Ieee80211Child::Ieee80211ToAp(f) => f@,
            Ieee80211Child::Ieee80211FromAp(f) => f@,
            Ieee80211Child::Ieee80211Ibss(f) => f@,
            Ieee80211Child::Ieee80211Wds(f) => f@,
        }
    }
}

/// A frame sent by a station to an access point.
#[derive(Debug)]
pub struct Ieee80211ToAp {
    pub duration_id: u16,
    pub ftype: FrameType,
    pub more_data: u8,
    pub more_frags: u8,
    pub order: u8,
    pub pm: u8,
    pub protected: u8,
    pub retry: u8,
    pub stype: u8,
    pub version: u8,
    pub bssid: MacAddress,
    pub source: MacAddress,
    pub destination: MacAddress,
    pub seq_ctrl: u16,
    pub payload: Vec<u8>,
}

impl View for Ieee80211ToAp {
    type V = ChildModel;

    open spec fn view(&self) -> ChildModel {
        ChildModel {
            kind: DsKind::ToAp,
            fields: FrameFields {
                version: self.version,
                ftype: self.ftype,
                stype: self.stype,
                to_ds: 1,
                from_ds: 0,
                more_frags: self.more_frags,
                retry: self.retry,
                pm: self.pm,
                more_data: self.more_data,
                protected: self.protected,
                order: self.order,
                duration_id: self.duration_id,
            },
            a1: self.bssid.0,
            a2: self.source.0,
            a3: self.destination.0,
            seq_ctrl: self.seq_ctrl,
            a4: 0,
            payload: self.payload@,
        }
    }
}

impl Ieee80211ToAp {
    /// The frame with its source and destination replaced where given.
    pub fn with_address(&self, source: Option<MacAddress>, destination: Option<MacAddress>) -> (r:
        Ieee80211ToAp)
        ensures
            r@ == with_addresses(
                self@,
                match source {
                    Some(s) => Some(s.0),
                    None => None,
                },
                match destination {
                    Some(d) => Some(d.0),
                    None => None,
                },
            ),
    {
        Ieee80211ToAp {
            duration_id: self.duration_id,
            ftype: self.ftype,
            more_data: self.more_data,
            more_frags: self.more_frags,
            order: self.order,
            pm: self.pm,
            protected: self.protected,
            retry: self.retry,
            stype: self.stype,
            version: self.version,
            bssid: self.bssid,
            source: match source {
                Some(s) => s,
                None => self.source,
            },
            destination: match destination {
                Some(d) => d,
                None => self.destination,
            },
            seq_ctrl: self.seq_ctrl,
            payload: clone_bytes(&self.payload),
        }
    }

    /// The frame with this body; fails when a field does not fit its bit width.
    pub fn try_into_ieee80211(&self) -> (r: Result<Ieee80211, PacketError>)
        ensures
            match r {
                Ok(f) => fields_wf(self@.fields) && f.fields() == self@.fields && f.payload@
                    == child_body_bytes(self@),
                Err(e) => !fields_wf(self@.fields) && e == PacketError::FieldOutOfRange,
            },
    {
        let fields = FrameFields {
            version: self.version,
            ftype: self.ftype,
            stype: self.stype,
            to_ds: 1,
            from_ds: 0,
            more_frags: self.more_frags,
            retry: self.retry,
            pm: self.pm,
            more_data: self.more_data,
            protected: self.protected,
            order: self.order,
            duration_id: self.duration_id,
        };
        let r = assemble(fields, self.bssid.0, self.source.0, self.destination.0, self.seq_ctrl, None, &self.payload);
        proof {
            if r is Ok {
                assert(r->Ok_0.payload@ =~= child_body_bytes(self@));
            }
        }
        r
    }

    /// The bytes of the frame; fails when a field does not fit its bit width.
    pub fn encode_to_vec(&self) -> (r: Result<Vec<u8>, PacketError>)
        ensures
            match r {
                Ok(v) => fields_wf(self@.fields) && v@ == ieee80211_bytes(
                    self@.fields,
                    child_body_bytes(self@),
                ),
                Err(e) => !fields_wf(self@.fields) && e == PacketError::FieldOutOfRange,
            },
    {
        match self.try_into_ieee80211() {
            Ok(f) => f.encode_to_vec(),
            Err(e) => Err(e),
        }
    }
}

/// A frame sent by an access point to a station.
#[derive(Debug)]
pub struct Ieee80211FromAp {
    pub duration_id: u16,
    pub ftype: FrameType,
    pub more_data: u8,
    pub more_frags: u8,
    pub order: u8,
    pub pm: u8,
    pub protected: u8,
    pub retry: u8,
    pub stype: u8,
    pub version: u8,
    pub destination: MacAddress,
    pub bssid: MacAddress,
    pub source: MacAddress,
    pub seq_ctrl: u16,
    pub payload: Vec<u8>,
}

impl View for Ieee80211FromAp {
    type V = ChildModel;

    open spec fn view(&self) -> ChildModel {
        ChildModel {
            kind: DsKind::FromAp,
            fields: FrameFields {
                version: self.version,
                ftype: self.ftype,
                stype: self.stype,
                to_ds: 0,
                from_ds: 1,
                more_frags: self.more_frags,
                retry: self.retry,
                pm: self.pm,
                more_data: self.more_data,
                protected: self.protected,
                order: self.order,
                duration_id: self.duration_id,
            },
            a1: self.destination.0,
            a2: self.bssid.0,
            a3: self.source.0,
            seq_ctrl: self.seq_ctrl,
            a4: 0,
            payload: self.payload@,
        }
    }
}

impl Ieee80211FromAp {
    /// The frame with its source and destination replaced where given.
    pub fn with_address(&self, source: Option<MacAddress>, destination: Option<MacAddress>) -> (r:
        Ieee80211FromAp)
        ensures
            r@ == with_addresses(
                self@,
                match source {
                    Some(s) => Some(s.0),
                    None => None,
                },
                match destination {
                    Some(d) => Some(d.0),
                    None => None,
                },
            ),
    {
        Ieee80211FromAp {
            duration_id: self.duration_id,
            ftype: self.ftype,
            more_data: self.more_data,
            more_frags: self.more_frags,
            order: self.order,
            pm: self.pm,
            protected: self.protected,
            retry: self.retry,
            stype: self.stype,
            version: self.version,
            bssid: self.bssid,
            source: match source {
                Some(s) => s,
                None => self.source,
            },
            destination: match destination {
                Some(d) => d,
                None => self.destination,
            },
            seq_ctrl: self.seq_ctrl,
            payload: clone_bytes(&self.payload),
        }
    }

    /// The frame with this body; fails when a field does not fit its bit width.
    pub fn try_into_ieee80211(&self) -> (r: Result<Ieee80211, PacketError>)
        ensures
            match r {
                Ok(f) => fields_wf(self@.fields) && f.fields() == self@.fields && f.payload@
                    == child_body_bytes(self@),
                Err(e) => !fields_wf(self@.fields) && e == PacketError::FieldOutOfRange,
            },
    {
        let fields = FrameFields {
            version: self.version,
            ftype: self.ftype,
            stype: self.stype,
            to_ds: 0,
            from_ds: 1,
            more_frags: self.more_frags,
            retry: self.retry,
            pm: self.pm,
            more_data: self.more_data,
            protected: self.protected,
            order: self.order,
            duration_id: self.duration_id,
        };
        let r = assemble(fields, self.destination.0, self.bssid.0, self.source.0, self.seq_ctrl, None, &self.payload);
        proof {
            if r is Ok {
                assert(r->Ok_0.payload@ =~= child_body_bytes(self@));
            }
        }
        r
    }

    /// The bytes of the frame; fails when a field does not fit its bit width.
    pub fn encode_to_vec(&self) -> (r: Result<Vec<u8>, PacketError>)
        ensures
            match r {
                Ok(v) => fields_wf(self@.fields) && v@ == ieee80211_bytes(
                    self@.fields,
                    child_body_bytes(self@),
                ),
                Err(e) => !fields_wf(self@.fields) && e == PacketError::FieldOutOfRange,
            },
    {
        match self.try_into_ieee80211() {
            Ok(f) => f.encode_to_vec(),
            Err(e) => Err(e),
        }
    }
}

/// A frame sent between stations of one basic service set.
#[derive(Debug)]
pub struct Ieee80211Ibss {
    pub duration_id: u16,
    pub ftype: FrameType,
    pub more_data: u8,
    pub more_frags: u8,
    pub order: u8,
    pub pm: u8,
    pub protected: u8,
    pub retry: u8,
    pub stype: u8,
    pub version: u8,
    pub destination: MacAddress,
    pub source: MacAddress,
    pub bssid: MacAddress,
    pub seq_ctrl: u16,
    pub payload: Vec<u8>,
}

impl View for Ieee80211Ibss {
    type V = ChildModel;

    open spec fn view(&self) -> ChildModel {
        ChildModel {
            kind: DsKind::Ibss,
            fields: FrameFields {
                version: self.version,
                ftype: self.ftype,
                stype: self.stype,
                to_ds: 0,
                from_ds: 0,
                more_frags: self.more_frags,
                retry: self.retry,
                pm: self.pm,
                more_data: self.more_data,
                protected: self.protected,
                order: self.order,
                duration_id: self.duration_id,
            },
            a1: self.destination.0,
            a2: self.source.0,
            a3: self.bssid.0,
            seq_ctrl: self.seq_ctrl,
            a4: 0,
            payload: self.payload@,
        }
    }
}

impl Ieee80211Ibss {
    /// The frame with its source and destination replaced where given.
    pub fn with_address(&self, source: Option<MacAddress>, destination: Option<MacAddress>) -> (r:
        Ieee80211Ibss)
        ensures
            r@ == with_addresses(
                self@,
                match source {
                    Some(s) => Some(s.0),
                    None => None,
                },
                match destination {
                    Some(d) => Some(d.0),
                    None => None,
                },
            ),
    {
        Ieee80211Ibss {
            duration_id: self.duration_id,
            ftype: self.ftype,
            more_data: self.more_data,
            more_frags: self.more_frags,
            order: self.order,
            pm: self.pm,
            protected: self.protected,
            retry: self.retry,
            stype: self.stype,
            version: self.version,
            bssid: self.bssid,
            source: match source {
                Some(s) => s,
                None => self.source,
            },
            destination: match destination {
                Some(d) => d,
                None => self.destination,
            },
            seq_ctrl: self.seq_ctrl,
            payload: clone_bytes(&self.payload),
        }
    }

    /// The frame with this body; fails when a field does not fit its bit width.
    pub fn try_into_ieee80211(&self) -> (r: Result<Ieee80211, PacketError>)
        ensures
            match r {
                Ok(f) => fields_wf(self@.fields) && f.fields() == self@.fields && f.payload@
                    == child_body_bytes(self@),
                Err(e) => !fields_wf(self@.fields) && e == PacketError::FieldOutOfRange,
            },
    {
        let fields = FrameFields {
            version: self.version,
            ftype: self.ftype,
            stype: self.stype,
            to_ds: 0,
            from_ds: 0,
            more_frags: self.more_frags,
            retry: self.retry,
            pm: self.pm,
            more_data: self.more_data,
            protected: self.protected,
            order: self.order,
            duration_id: self.duration_id,
        };
        let r = assemble(fields, self.destination.0, self.source.0, self.bssid.0, self.seq_ctrl, None, &self.payload);
        proof {
            if r is Ok {
                assert(r->Ok_0.payload@ =~= child_body_bytes(self@));
            }
        }
        r
    }

    /// The bytes of the frame; fails when a field does not fit its bit width.
    pub fn encode_to_vec(&self) -> (r: Result<Vec<u8>, PacketError>)
        ensures
            match r {
                Ok(v) => fields_wf(self@.fields) && v@ == ieee80211_bytes(
                    self@.fields,
                    child_body_bytes(self@),
                ),
                Err(e) => !fields_wf(self@.fields) && e == PacketError::FieldOutOfRange,
            },
    {
        match self.try_into_ieee80211() {
            Ok(f) => f.encode_to_vec(),
            Err(e) => Err(e),
        }
    }
}

/// A frame sent between distribution systems, which carries four addresses.
#[derive(Debug)]
pub struct Ieee80211Wds {
    pub duration_id: u16,
    pub ftype: FrameType,
    pub more_data: u8,
    pub more_frags: u8,
    pub order: u8,
    pub pm: u8,
    pub protected: u8,
    pub retry: u8,
    pub stype: u8,
    pub version: u8,
    pub receiver: MacAddress,
    pub transmitter: MacAddress,
    pub destination: MacAddress,
    pub seq_ctrl: u16,
    pub source: MacAddress,
    pub payload: Vec<u8>,
}

impl View for Ieee80211Wds {
    type V = ChildModel;

    open spec fn view(&self) -> ChildModel {
        ChildModel {
            kind: DsKind::Wds,
            fields: FrameFields {
                version: self.version,
                ftype: self.ftype,
                stype: self.stype,
                to_ds: 1,
                from_ds: 1,
                more_frags: self.more_frags,
                retry: self.retry,
                pm: self.pm,
                more_data: self.more_data,
                protected: self.protected,
                order: self.order,
                duration_id: self.duration_id,
            },
            a1: self.receiver.0,
            a2: self.transmitter.0,
            a3: self.destination.0,
            seq_ctrl: self.seq_ctrl,
            a4: self.source.0,
            payload: self.payload@,
        }
    }
}

impl Ieee80211Wds {
    /// The frame with its source and destination replaced where given.
    pub fn with_address(&self, source: Option<MacAddress>, destination: Option<MacAddress>) -> (r:
        Ieee80211Wds)
        ensures
            r@ == with_addresses(
                self@,
                match source {
                    Some(s) => Some(s.0),
                    None => None,
                },
                match destination {
                    Some(d) => Some(d.0),
                    None => None,
                },
            ),
    {
        Ieee80211Wds {
            duration_id: self.duration_id,
            ftype: self.ftype,
            more_data: self.more_data,
            more_frags: self.more_frags,
            order: self.order,
            pm: self.pm,
            protected: self.protected,
            retry: self.retry,
            stype: self.stype,
            version: self.version,
            receiver: self.receiver,
            transmitter: self.transmitter,
            destination: match destination {
                Some(d) => d,
                None => self.destination,
            },
            seq_ctrl: self.seq_ctrl,
            source: match source {
                Some(s) => s,
                None => self.source,
            },
            payload: clone_bytes(&self.payload),
        }
    }

    /// The frame with this body; fails when a field does not fit its bit width.
    pub fn try_into_ieee80211(&self) -> (r: Result<Ieee80211, PacketError>)
        ensures
            match r {
                Ok(f) => fields_wf(self@.fields) && f.fields() == self@.fields && f.payload@
                    == child_body_bytes(self@),
                Err(e) => !fields_wf(self@.fields) && e == PacketError::FieldOutOfRange,
            },
    {
        let fields = FrameFields {
            version: self.version,
            ftype: self.ftype,
            stype: self.stype,
            to_ds: 1,
            from_ds: 1,
            more_frags: self.more_frags,
            retry: self.retry,
            pm: self.pm,
            more_data: self.more_data,
            protected: self.protected,
            order: self.order,
            duration_id: self.duration_id,
        };
        let r = assemble(
            fields,
            self.receiver.0,
            self.transmitter.0,
            self.destination.0,
            self.seq_ctrl,
            Some(self.source.0),
            &self.payload,
        );
        proof {
            if r is Ok {
                assert(r->Ok_0.payload@ =~= child_body_bytes(self@));
            }
        }
        r
    }

    /// The bytes of the frame; fails when a field does not fit its bit width.
    pub fn encode_to_vec(&self) -> (r: Result<Vec<u8>, PacketError>)
        ensures
            match r {
                Ok(v) => fields_wf(self@.fields) && v@ == ieee80211_bytes(
                    self@.fields,
                    child_body_bytes(self@),
                ),
                Err(e) => !fields_wf(self@.fields) && e == PacketError::FieldOutOfRange,
            },
    {
        match self.try_into_ieee80211() {
            Ok(f) => f.encode_to_vec(),
            Err(e) => Err(e),
        }
    }
}

} // verus!
