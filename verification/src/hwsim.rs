//! Netlink attributes of the mac80211_hwsim interface, and the hwsim
//! messages that carry them.
//!
//! An attribute is a 16-bit length (header included), a 16-bit type (14 bits
//! of type, then two flag bits), and the payload, padded with zeros to a
//! multiple of four bytes. A message is a 16-byte netlink header, a 4-byte
//! generic netlink header that holds the hwsim command, and the attributes.

use crate::error::PacketError;
use crate::ieee80211::{mac_text, MacAddress};
use crate::text::{decimal, lemma_decimal_nonempty, push_decimal, push_str};
use crate::wire::{
    le16, le16_bytes, le32, le32_bytes, le48, le48_bytes, le64, le64_bytes, lemma_le16,
    lemma_le32, lemma_le48, lemma_le64, push_bytes, push_u16, push_u32, push_u48, push_u64,
    read_u16, read_u32, read_u48, read_u64,
};
use vstd::prelude::*;

verus! {

/// Netlink attributes start at multiples of this many bytes.
pub const NLA_ALIGNTO: usize = 4;

/// `n` rounded up to a multiple of four.
pub open spec fn align4(n: nat) -> nat {
    ((n + 3) / 4 * 4) as nat
}

/// Rounds a length up to the netlink attribute alignment, wrapping around
/// as unsigned addition does.
pub fn nla_align(array_length: usize) -> (r: usize)
    ensures
        array_length + 3 <= usize::MAX ==> r == align4(array_length as nat),
        array_length + 3 > usize::MAX ==> r == 0,
{
    let w = array_length.wrapping_add(NLA_ALIGNTO - 1);
    let r = w & !(NLA_ALIGNTO - 1);
    proof {
        if array_length + 3 <= usize::MAX {
            assert(w == array_length + 3);
            assert(w & !3usize == (w / 4) * 4) by (bit_vector);
        } else {
            assert(w < 3);
            assert(w < 3 ==> w & !3usize == 0) by (bit_vector);
        }
    }
    r
}

/// A transmission rate attempt: a rate index and the number of tries.
#[derive(Clone, Copy, PartialEq, Eq, Structural, Debug)]
pub struct TxRate {
    pub idx: u8,
    pub count: u8,
}

/// The flags used for a transmission rate.
#[derive(Clone, Copy, PartialEq, Eq, Structural, Debug)]
pub struct TxRateFlag {
    pub idx: u8,
    pub flags: u16,
}

pub const HWSIM_ATTR_ADDR_RECEIVER: u16 = 1;
pub const HWSIM_ATTR_ADDR_TRANSMITTER: u16 = 2;
pub const HWSIM_ATTR_FRAME: u16 = 3;
pub const HWSIM_ATTR_FLAGS: u16 = 4;
pub const HWSIM_ATTR_RX_RATE: u16 = 5;
pub const HWSIM_ATTR_SIGNAL: u16 = 6;
pub const HWSIM_ATTR_TX_INFO: u16 = 7;
pub const HWSIM_ATTR_COOKIE: u16 = 8;
pub const HWSIM_ATTR_FREQ: u16 = 19;
pub const HWSIM_ATTR_TX_INFO_FLAGS: u16 = 21;

/// A decoded hwsim attribute.
pub enum AttrValue {
    Receiver(u64),
    Transmitter(u64),
    Frame(Seq<u8>),
    Flags(u32),
    RxRate(u32),
    Signal(u32),
    TxInfo(Seq<TxRate>),
    Cookie(u64),
    Freq(u32),
    TxInfoFlags(Seq<TxRateFlag>),
}

/// The bytes of a list of rates: index then count, for each.
pub open spec fn rates_bytes(r: Seq<TxRate>) -> Seq<u8> {
    Seq::new(
        2 * r.len(),
        |i: int|
            if i % 2 == 0 {
                r[i / 2].idx
            } else {
                r[i / 2].count
            },
    )
}

/// The rates that the bytes `p` hold, two bytes each.
pub open spec fn rates_of_bytes(p: Seq<u8>) -> Seq<TxRate> {
    Seq::new(p.len() / 2, |i: int| TxRate { idx: p[2 * i], count: p[2 * i + 1] })
}

/// The bytes of a list of rate flags: index then the flags, little-endian.
pub open spec fn rate_flags_bytes(r: Seq<TxRateFlag>) -> Seq<u8> {
    Seq::new(
        3 * r.len(),
        |i: int|
            if i % 3 == 0 {
                r[i / 3].idx
            } else if i % 3 == 1 {
                r[i / 3].flags as u8
            } else {
                (r[i / 3].flags >> 8u16) as u8
            },
    )
}

/// The rate flags that the bytes `p` hold, three bytes each.
pub open spec fn rate_flags_of_bytes(p: Seq<u8>) -> Seq<TxRateFlag> {
    Seq::new(
        p.len() / 3,
        |i: int| TxRateFlag { idx: p[3 * i], flags: le16(p[3 * i + 1], p[3 * i + 2]) },
    )
}

/// The type code of an attribute.
pub open spec fn attr_type(a: AttrValue) -> u16 {
    match a {
        AttrValue::Receiver(_) => HWSIM_ATTR_ADDR_RECEIVER,
        AttrValue::Transmitter(_) => HWSIM_ATTR_ADDR_TRANSMITTER,
        AttrValue::Frame(_) => HWSIM_ATTR_FRAME,
        AttrValue::Flags(_) => HWSIM_ATTR_FLAGS,
        AttrValue::RxRate(_) => HWSIM_ATTR_RX_RATE,
        AttrValue::Signal(_) => HWSIM_ATTR_SIGNAL,
        AttrValue::TxInfo(_) => HWSIM_ATTR_TX_INFO,
        AttrValue::Cookie(_) => HWSIM_ATTR_COOKIE,
        AttrValue::Freq(_) => HWSIM_ATTR_FREQ,
        AttrValue::TxInfoFlags(_) => HWSIM_ATTR_TX_INFO_FLAGS,
    }
}

/// The payload bytes of an attribute.
pub open spec fn attr_payload(a: AttrValue) -> Seq<u8> {
    match a {
        AttrValue::Receiver(v) => le48_bytes(v),
        AttrValue::Transmitter(v) => le48_bytes(v),
        AttrValue::Frame(d) => d,
        AttrValue::Flags(v) => le32_bytes(v),
        AttrValue::RxRate(v) => le32_bytes(v),
        AttrValue::Signal(v) => le32_bytes(v),
        AttrValue::TxInfo(r) => rates_bytes(r),
        AttrValue::Cookie(v) => le64_bytes(v),
        AttrValue::Freq(v) => le32_bytes(v),
        AttrValue::TxInfoFlags(r) => rate_flags_bytes(r),
    }
}

/// `n` zero bytes.
pub open spec fn zeros(n: nat) -> Seq<u8> {
    Seq::new(n, |i: int| 0u8)
}

/// The attribute's length field and type fit in 16 bits.
pub open spec fn attr_fits(a: AttrValue) -> bool {
    attr_payload(a).len() + 4 <= 0xffff
}

/// The bytes of an attribute: length, type with both flags clear, payload,
/// and zeros up to the next multiple of four.
pub open spec fn attr_bytes(a: AttrValue) -> Seq<u8> {
    let p = attr_payload(a);
    let n = (p.len() + 4) as nat;
    le16_bytes(n as u16) + le16_bytes(attr_type(a)) + p + zeros((align4(n) - n) as nat)
}

/// The 14-bit type of the attribute whose header starts `s`.
pub open spec fn nla_type_of(s: Seq<u8>) -> u16 {
    (le16(s[2], s[3]) % 16384) as u16
}

/// Decodes one attribute; `s` holds exactly the attribute's length-field
/// bytes, header included. Bytes after a fixed-size payload are ignored.
pub open spec fn parse_attr(s: Seq<u8>) -> Result<AttrValue, PacketError> {
    let t = nla_type_of(s);
    let p = s.skip(4);
    if t == HWSIM_ATTR_ADDR_RECEIVER || t == HWSIM_ATTR_ADDR_TRANSMITTER {
        if p.len() < 6 {
            Err(PacketError::TooShort)
        } else if t == HWSIM_ATTR_ADDR_RECEIVER {
            Ok(AttrValue::Receiver(le48(p.take(6))))
        } else {
            Ok(AttrValue::Transmitter(le48(p.take(6))))
        }
    } else if t == HWSIM_ATTR_FRAME {
        Ok(AttrValue::Frame(p))
    } else if t == HWSIM_ATTR_FLAGS || t == HWSIM_ATTR_RX_RATE || t == HWSIM_ATTR_SIGNAL || t
        == HWSIM_ATTR_FREQ {
        if p.len() < 4 {
            Err(PacketError::TooShort)
        } else {
            let v = le32(p[0], p[1], p[2], p[3]);
            if t == HWSIM_ATTR_FLAGS {
                Ok(AttrValue::Flags(v))
            } else if t == HWSIM_ATTR_RX_RATE {
                Ok(AttrValue::RxRate(v))
            } else if t == HWSIM_ATTR_SIGNAL {
                Ok(AttrValue::Signal(v))
            } else {
                Ok(AttrValue::Freq(v))
            }
        }
    } else if t == HWSIM_ATTR_COOKIE {
        if p.len() < 8 {
            Err(PacketError::TooShort)
        } else {
            Ok(AttrValue::Cookie(le64(p.take(8))))
        }
    } else if t == HWSIM_ATTR_TX_INFO {
        if p.len() % 2 != 0 {
            Err(PacketError::InvalidLength)
        } else {
            Ok(AttrValue::TxInfo(rates_of_bytes(p)))
        }
    } else if t == HWSIM_ATTR_TX_INFO_FLAGS {
        if p.len() % 3 != 0 {
            Err(PacketError::InvalidLength)
        } else {
            Ok(AttrValue::TxInfoFlags(rate_flags_of_bytes(p)))
        }
    } else {
        Err(PacketError::UnknownAttribute { nla_type: t })
    }
}

/// A decoded hwsim attribute.
#[derive(Debug)]
pub enum HwsimAttr {
    AddrReceiver(MacAddress),
    AddrTransmitter(MacAddress),
    Frame(Vec<u8>),
    Flags(u32),
    RxRate(u32),
    Signal(u32),
    TxInfo(Vec<TxRate>),
    Cookie(u64),
    Freq(u32),
    TxInfoFlags(Vec<TxRateFlag>),
}

impl View for HwsimAttr {
    type V = AttrValue;

    open spec fn view(&self) -> AttrValue {
        match self {
            HwsimAttr::AddrReceiver(m) => AttrValue::Receiver(m.0),
            HwsimAttr::AddrTransmitter(m) => AttrValue::Transmitter(m.0),
            HwsimAttr::Frame(d) => AttrValue::Frame(d@),
            HwsimAttr::Flags(v) => AttrValue::Flags(*v),
            HwsimAttr::RxRate(v) => AttrValue::RxRate(*v),
            HwsimAttr::Signal(v) => AttrValue::Signal(*v),
            HwsimAttr::TxInfo(r) => AttrValue::TxInfo(r@),
            HwsimAttr::Cookie(v) => AttrValue::Cookie(*v),
            HwsimAttr::Freq(v) => AttrValue::Freq(*v),
            HwsimAttr::TxInfoFlags(r) => AttrValue::TxInfoFlags(r@),
        }
    }
}

fn parse_rates(s: &[u8], start: usize, end: usize) -> (r: Vec<TxRate>)
    requires
        start <= end <= s@.len(),
        (end - start) % 2 == 0,
    ensures
        r@ == rates_of_bytes(s@.subrange(start as int, end as int)),
{
    let ghost p = s@.subrange(start as int, end as int);
    let mut r: Vec<TxRate> = Vec::new();
    let mut i: usize = start;
    while i < end
        invariant
            start <= i <= end <= s@.len(),
            (end - start) % 2 == 0,
            (i - start) % 2 == 0,
            p == s@.subrange(start as int, end as int),
            r@.len() == (i - start) / 2,
            forall|k: int|
                0 <= k < r@.len() ==> #[trigger] r@[k] == (TxRate { idx: p[2 * k], count: p[2 * k + 1] }),
        decreases end - i,
    {
        r.push(TxRate { idx: s[i], count: s[i + 1] });
        i = i + 2;
    }
    assert(r@ =~= rates_of_bytes(p));
    r
}

fn parse_rate_flags(s: &[u8], start: usize, end: usize) -> (r: Vec<TxRateFlag>)
    requires
        start <= end <= s@.len(),
        (end - start) % 3 == 0,
    ensures
        r@ == rate_flags_of_bytes(s@.subrange(start as int, end as int)),
{
    let ghost p = s@.subrange(start as int, end as int);
    let mut r: Vec<TxRateFlag> = Vec::new();
    let mut i: usize = start;
    while i < end
        invariant
            start <= i <= end <= s@.len(),
            (end - start) % 3 == 0,
            (i - start) % 3 == 0,
            p == s@.subrange(start as int, end as int),
            r@.len() == (i - start) / 3,
            forall|k: int|
                0 <= k < r@.len() ==> #[trigger] r@[k] == (TxRateFlag {
                    idx: p[3 * k],
                    flags: le16(p[3 * k + 1], p[3 * k + 2]),
                }),
        decreases end - i,
    {
        r.push(TxRateFlag { idx: s[i], flags: read_u16(s, i + 1) });
        i = i + 3;
    }
    assert(r@ =~= rate_flags_of_bytes(p));
    r
}

fn copy_bytes(s: &[u8], start: usize, end: usize) -> (r: Vec<u8>)
    requires
        start <= end <= s@.len(),
    ensures
        r@ == s@.subrange(start as int, end as int),
{
    crate::wire::copy_range(s, start, end - start)
}

/// Decodes the attribute that takes the `n` bytes of `s` from `start`.
fn parse_attr_at(s: &[u8], start: usize, n: usize) -> (r: Result<HwsimAttr, PacketError>)
    requires
        4 <= n,
        start + n <= s.len(),
    ensures
        match r {
            Ok(a) => parse_attr(s@.subrange(start as int, start + n)) == Ok::<AttrValue, PacketError>(a@),
            Err(e) => parse_attr(s@.subrange(start as int, start + n)) == Err::<AttrValue, PacketError>(e),
        },
{
    let ghost a = s@.subrange(start as int, start + n);
    let ghost p = a.skip(4);
    let t = read_u16(s, start + 2) % 16384;
    let ps = start + 4;
    let pe = start + n;
    let plen = n - 4;
    assert(t == nla_type_of(a));
    assert(p.len() == plen);
    if t == HWSIM_ATTR_ADDR_RECEIVER || t == HWSIM_ATTR_ADDR_TRANSMITTER {
        if plen < 6 {
            return Err(PacketError::TooShort);
        }
        let m = MacAddress(read_u48(s, ps));
        assert(s@.subrange(ps as int, ps + 6) =~= p.take(6));
        if t == HWSIM_ATTR_ADDR_RECEIVER {
            Ok(HwsimAttr::AddrReceiver(m))
        } else {
            Ok(HwsimAttr::AddrTransmitter(m))
        }
    } else if t == HWSIM_ATTR_FRAME {
        let d = copy_bytes(s, ps, pe);
        assert(d@ =~= p);
        Ok(HwsimAttr::Frame(d))
    } else if t == HWSIM_ATTR_FLAGS || t == HWSIM_ATTR_RX_RATE || t == HWSIM_ATTR_SIGNAL || t
        == HWSIM_ATTR_FREQ {
        if plen < 4 {
            return Err(PacketError::TooShort);
        }
        let v = read_u32(s, ps);
        assert(v == le32(p[0], p[1], p[2], p[3]));
        if t == HWSIM_ATTR_FLAGS {
            Ok(HwsimAttr::Flags(v))
        } else if t == HWSIM_ATTR_RX_RATE {
            Ok(HwsimAttr::RxRate(v))
        } else if t == HWSIM_ATTR_SIGNAL {
            Ok(HwsimAttr::Signal(v))
        } else {
            Ok(HwsimAttr::Freq(v))
        }
    } else if t == HWSIM_ATTR_COOKIE {
        if plen < 8 {
            return Err(PacketError::TooShort);
        }
        let v = read_u64(s, ps);
        assert(s@.subrange(ps as int, ps + 8) =~= p.take(8));
        Ok(HwsimAttr::Cookie(v))
    } else if t == HWSIM_ATTR_TX_INFO {
        if plen % 2 != 0 {
            return Err(PacketError::InvalidLength);
        }
        let r = parse_rates(s, ps, pe);
        assert(s@.subrange(ps as int, pe as int) =~= p);
        Ok(HwsimAttr::TxInfo(r))
    } else if t == HWSIM_ATTR_TX_INFO_FLAGS {
        if plen % 3 != 0 {
            return Err(PacketError::InvalidLength);
        }
        let r = parse_rate_flags(s, ps, pe);
        assert(s@.subrange(ps as int, pe as int) =~= p);
        Ok(HwsimAttr::TxInfoFlags(r))
    } else {
        Err(PacketError::UnknownAttribute { nla_type: t })
    }
}

/// How decoding a list of attributes ends.
pub enum AttrsEnd {
    /// Every attribute was decoded.
    Complete,
    /// An attribute could not be decoded; decoding stops there.
    Failed(PacketError),
    /// Fewer than four bytes remain for a header, or a length field runs
    /// past the end: slicing the input panics there.
    Panics,
}

/// Decodes the attributes of `s` one after the other, each starting at the
/// previous one's start plus its length rounded up to a multiple of four.
/// Gives the attributes decoded before the end, and how it ended.
pub open spec fn parse_attrs(s: Seq<u8>) -> (Seq<AttrValue>, AttrsEnd)
    decreases s.len(),
{
    if s.len() == 0 {
        (Seq::empty(), AttrsEnd::Complete)
    } else if s.len() < 4 {
        (Seq::empty(), AttrsEnd::Panics)
    } else {
        let n = le16(s[0], s[1]) as nat;
        if n > s.len() {
            (Seq::empty(), AttrsEnd::Panics)
        } else if n < 4 {
            (Seq::empty(), AttrsEnd::Failed(PacketError::InvalidLength))
        } else {
            match parse_attr(s.take(n as int)) {
                Err(e) => (Seq::empty(), AttrsEnd::Failed(e)),
                Ok(a) => {
                    let step = align4(n);
                    let rest = if step >= s.len() {
                        Seq::<u8>::empty()
                    } else {
                        s.skip(step as int)
                    };
                    let (l, end) = parse_attrs(rest);
                    (seq![a] + l, end)
                },
            }
        }
    }
}

/// The attribute with the frame or the transmitter replaced, where a
/// replacement is given.
pub open spec fn override_attr(a: AttrValue, frame: Option<Seq<u8>>, transmitter: Option<u64>) -> AttrValue {
    match a {
        AttrValue::Transmitter(v) => AttrValue::Transmitter(
            match transmitter {
                Some(t) => t,
                None => v,
            },
        ),
        AttrValue::Frame(d) => AttrValue::Frame(
            match frame {
                Some(f) => f,
                None => d,
            },
        ),
        _ => a,
    }
}

/// The attributes of a set: the last value of each kind, and the bytes of
/// all attributes added, in order.
pub struct AttrSetModel {
    pub transmitter: Option<u64>,
    pub receiver: Option<u64>,
    pub frame: Option<Seq<u8>>,
    pub flags: Option<u32>,
    pub rx_rate_idx: Option<u32>,
    pub signal: Option<u32>,
    pub cookie: Option<u64>,
    pub freq: Option<u32>,
    pub tx_info: Option<Seq<TxRate>>,
    pub tx_info_flags: Option<Seq<TxRateFlag>>,
    pub attributes: Seq<u8>,
}

/// The set with no attribute.
pub open spec fn empty_attr_set() -> AttrSetModel {
    AttrSetModel {
        transmitter: None,
        receiver: None,
        frame: None,
        flags: None,
        rx_rate_idx: None,
        signal: None,
        cookie: None,
        freq: None,
        tx_info: None,
        tx_info_flags: None,
        attributes: Seq::empty(),
    }
}

/// The set with one more attribute: its value replaces that of its kind,
/// and its bytes follow the others.
pub open spec fn add_attr(m: AttrSetModel, a: AttrValue) -> AttrSetModel {
    let m2 = AttrSetModel { attributes: m.attributes + attr_bytes(a), ..m };
    match a {
        AttrValue::Receiver(v) => AttrSetModel { receiver: Some(v), ..m2 },
        AttrValue::Transmitter(v) => AttrSetModel { transmitter: Some(v), ..m2 },
        AttrValue::Frame(d) => AttrSetModel { frame: Some(d), ..m2 },
        AttrValue::Flags(v) => AttrSetModel { flags: Some(v), ..m2 },
        AttrValue::RxRate(v) => AttrSetModel { rx_rate_idx: Some(v), ..m2 },
        AttrValue::Signal(v) => AttrSetModel { signal: Some(v), ..m2 },
        AttrValue::TxInfo(r) => AttrSetModel { tx_info: Some(r), ..m2 },
        AttrValue::Cookie(v) => AttrSetModel { cookie: Some(v), ..m2 },
        AttrValue::Freq(v) => AttrSetModel { freq: Some(v), ..m2 },
        AttrValue::TxInfoFlags(r) => AttrSetModel { tx_info_flags: Some(r), ..m2 },
    }
}

/// The set made of the attributes of `l`, added in order.
pub open spec fn attr_set_of(l: Seq<AttrValue>) -> AttrSetModel
    decreases l.len(),
{
    if l.len() == 0 {
        empty_attr_set()
    } else {
        add_attr(attr_set_of(l.drop_last()), l.last())
    }
}

/// Builds a set of hwsim attributes; the attribute bytes follow the order of
/// the calls.
#[derive(Debug)]
pub struct HwsimAttrSetBuilder {
    transmitter: Option<MacAddress>,
    receiver: Option<MacAddress>,
    frame: Option<Vec<u8>>,
    flags: Option<u32>,
    rx_rate_idx: Option<u32>,
    signal: Option<u32>,
    cookie: Option<u64>,
    freq: Option<u32>,
    tx_info: Option<Vec<TxRate>>,
    tx_info_flags: Option<Vec<TxRateFlag>>,
    attributes: Vec<u8>,
}

/// A set of hwsim attributes, with the bytes of all of them.
#[derive(Debug)]
pub struct HwsimAttrSet {
    pub transmitter: Option<MacAddress>,
    pub receiver: Option<MacAddress>,
    pub frame: Option<Vec<u8>>,
    pub flags: Option<u32>,
    pub rx_rate_idx: Option<u32>,
    pub signal: Option<u32>,
    pub cookie: Option<u64>,
    pub freq: Option<u32>,
    pub tx_info: Option<Vec<TxRate>>,
    pub tx_info_flags: Option<Vec<TxRateFlag>>,
    pub attributes: Vec<u8>,
}

pub open spec fn mac_opt(m: Option<MacAddress>) -> Option<u64> {
    match m {
        Some(a) => Some(a.0),
        None => None,
    }
}

pub open spec fn bytes_opt(v: Option<Vec<u8>>) -> Option<Seq<u8>> {
    match v {
        Some(d) => Some(d@),
        None => None,
    }
}

pub open spec fn rates_opt(v: Option<Vec<TxRate>>) -> Option<Seq<TxRate>> {
    match v {
        Some(d) => Some(d@),
        None => None,
    }
}

pub open spec fn rate_flags_opt(v: Option<Vec<TxRateFlag>>) -> Option<Seq<TxRateFlag>> {
    match v {
        Some(d) => Some(d@),
        None => None,
    }
}

impl View for HwsimAttrSetBuilder {
    type V = AttrSetModel;

    closed spec fn view(&self) -> AttrSetModel {
        AttrSetModel {
            transmitter: mac_opt(self.transmitter),
            receiver: mac_opt(self.receiver),
            frame: bytes_opt(self.frame),
            flags: self.flags,
            rx_rate_idx: self.rx_rate_idx,
            signal: self.signal,
            cookie: self.cookie,
            freq: self.freq,
            tx_info: rates_opt(self.tx_info),
            tx_info_flags: rate_flags_opt(self.tx_info_flags),
            attributes: self.attributes@,
        }
    }
}

impl View for HwsimAttrSet {
    type V = AttrSetModel;

    open spec fn view(&self) -> AttrSetModel {
        AttrSetModel {
            transmitter: mac_opt(self.transmitter),
            receiver: mac_opt(self.receiver),
            frame: bytes_opt(self.frame),
            flags: self.flags,
            rx_rate_idx: self.rx_rate_idx,
            signal: self.signal,
            cookie: self.cookie,
            freq: self.freq,
            tx_info: rates_opt(self.tx_info),
            tx_info_flags: rate_flags_opt(self.tx_info_flags),
            attributes: self.attributes@,
        }
    }
}

fn push_zeros(out: &mut Vec<u8>, n: usize)
    ensures
        final(out)@ == old(out)@ + zeros(n as nat),
{
    let mut i: usize = 0;
    let ghost start = out@;
    while i < n
        invariant
            i <= n,
            out@ == start + zeros(i as nat),
        decreases n - i,
    {
        out.push(0u8);
        i = i + 1;
        assert(out@ =~= start + zeros(i as nat));
    }
}

fn push_rates(out: &mut Vec<u8>, r: &[TxRate])
    ensures
        final(out)@ == old(out)@ + rates_bytes(r@),
{
    let ghost start = out@;
    let mut i: usize = 0;
    while i < r.len()
        invariant
            i <= r@.len(),
            out@ == start + rates_bytes(r@.take(i as int)),
        decreases r@.len() - i,
    {
        let x = r[i];
        out.push(x.idx);
        out.push(x.count);
        i = i + 1;
        assert(out@ =~= start + rates_bytes(r@.take(i as int)));
    }
    assert(r@.take(r@.len() as int) =~= r@);
}

fn push_rate_flags(out: &mut Vec<u8>, r: &[TxRateFlag])
    ensures
        final(out)@ == old(out)@ + rate_flags_bytes(r@),
{
    let ghost start = out@;
    let mut i: usize = 0;
    while i < r.len()
        invariant
            i <= r@.len(),
            out@ == start + rate_flags_bytes(r@.take(i as int)),
        decreases r@.len() - i,
    {
        let x = r[i];
        out.push(x.idx);
        push_u16(out, x.flags);
        i = i + 1;
        assert(out@ =~= start + rate_flags_bytes(r@.take(i as int)));
    }
    assert(r@.take(r@.len() as int) =~= r@);
}

fn payload_len(a: &HwsimAttr) -> (n: usize)
    requires
        attr_fits(a@),
    ensures
        n == attr_payload(a@).len(),
{
    match a {
        HwsimAttr::AddrReceiver(_) => 6,
        HwsimAttr::AddrTransmitter(_) => 6,
        HwsimAttr::Frame(d) => d.len(),
        HwsimAttr::Flags(_) => 4,
        HwsimAttr::RxRate(_) => 4,
        HwsimAttr::Signal(_) => 4,
        HwsimAttr::TxInfo(r) => 2 * r.len(),
        HwsimAttr::Cookie(_) => 8,
        HwsimAttr::Freq(_) => 4,
        HwsimAttr::TxInfoFlags(r) => 3 * r.len(),
    }
}

fn type_code(a: &HwsimAttr) -> (t: u16)
    ensures
        t == attr_type(a@),
{
    match a {
        HwsimAttr::AddrReceiver(_) => HWSIM_ATTR_ADDR_RECEIVER,
        HwsimAttr::AddrTransmitter(_) => HWSIM_ATTR_ADDR_TRANSMITTER,
        HwsimAttr::Frame(_) => HWSIM_ATTR_FRAME,
        HwsimAttr::Flags(_) => HWSIM_ATTR_FLAGS,
        HwsimAttr::RxRate(_) => HWSIM_ATTR_RX_RATE,
        HwsimAttr::Signal(_) => HWSIM_ATTR_SIGNAL,
        HwsimAttr::TxInfo(_) => HWSIM_ATTR_TX_INFO,
        HwsimAttr::Cookie(_) => HWSIM_ATTR_COOKIE,
        HwsimAttr::Freq(_) => HWSIM_ATTR_FREQ,
        HwsimAttr::TxInfoFlags(_) => HWSIM_ATTR_TX_INFO_FLAGS,
    }
}

/// Appends the bytes of an attribute, padded to a multiple of four.
fn push_attr(out: &mut Vec<u8>, a: &HwsimAttr)
    requires
        attr_fits(a@),
    ensures
        final(out)@ == old(out)@ + attr_bytes(a@),
{
    let ghost start = out@;
    let p = payload_len(a);
    let n = p + 4;
    push_u16(out, n as u16);
    push_u16(out, type_code(a));
    let ghost mid = out@;
    match a {
        HwsimAttr::AddrReceiver(m) => push_u48(out, m.0),
        HwsimAttr::AddrTransmitter(m) => push_u48(out, m.0),
        HwsimAttr::Frame(d) => push_bytes(out, d.as_slice()),
        HwsimAttr::Flags(v) => push_u32(out, *v),
        HwsimAttr::RxRate(v) => push_u32(out, *v),
        HwsimAttr::Signal(v) => push_u32(out, *v),
        HwsimAttr::TxInfo(r) => push_rates(out, r.as_slice()),
        HwsimAttr::Cookie(v) => push_u64(out, *v),
        HwsimAttr::Freq(v) => push_u32(out, *v),
        HwsimAttr::TxInfoFlags(r) => push_rate_flags(out, r.as_slice()),
    }
    assert(out@ == mid + attr_payload(a@));
    let padded = nla_align(n);
    push_zeros(out, padded - n);
    assert(out@ =~= start + attr_bytes(a@));
}

impl Default for HwsimAttrSetBuilder {
    fn default() -> (r: HwsimAttrSetBuilder)
        ensures
            r@ == empty_attr_set(),
    {
        HwsimAttrSet::builder()
    }
}

impl HwsimAttrSetBuilder {
    /// Adds the attribute: its value replaces that of its kind, its bytes
    /// (padded) follow the others.
    fn extend_attributes(&mut self, a: HwsimAttr)
        requires
            attr_fits(a@),
        ensures
            final(self)@ == add_attr(old(self)@, a@),
    {
        let ghost av = a@;
        push_attr(&mut self.attributes, &a);
        match a {
            HwsimAttr::AddrReceiver(m) => self.receiver = Some(m),
            HwsimAttr::AddrTransmitter(m) => self.transmitter = Some(m),
            HwsimAttr::Frame(d) => self.frame = Some(d),
            HwsimAttr::Flags(v) => self.flags = Some(v),
            HwsimAttr::RxRate(v) => self.rx_rate_idx = Some(v),
            HwsimAttr::Signal(v) => self.signal = Some(v),
            HwsimAttr::TxInfo(r) => self.tx_info = Some(r),
            HwsimAttr::Cookie(v) => self.cookie = Some(v),
            HwsimAttr::Freq(v) => self.freq = Some(v),
            HwsimAttr::TxInfoFlags(r) => self.tx_info_flags = Some(r),
        }
        assert(self@ == add_attr(old(self)@, av));
    }

    /// Adds the transmitter address (HWSIM_ATTR_ADDR_TRANSMITTER).
    pub fn transmitter(&mut self, transmitter: &[u8; 6]) -> (r: &mut Self)
        ensures
            r@ == add_attr(old(self)@, AttrValue::Transmitter(le48(transmitter@))),
            *final(self) == *final(r),
    {
        self.extend_attributes(HwsimAttr::AddrTransmitter(MacAddress::from_octets(transmitter)));
        self
    }

    /// Adds the receiver address (HWSIM_ATTR_ADDR_RECEIVER).
    pub fn receiver(&mut self, receiver: &[u8; 6]) -> (r: &mut Self)
        ensures
            r@ == add_attr(old(self)@, AttrValue::Receiver(le48(receiver@))),
            *final(self) == *final(r),
    {
        self.extend_attributes(HwsimAttr::AddrReceiver(MacAddress::from_octets(receiver)));
        self
    }

    /// Adds the 802.11 frame (HWSIM_ATTR_FRAME); the attribute's length
    /// field must hold the frame's length plus the header.
    pub fn frame(&mut self, frame: &[u8]) -> (r: &mut Self)
        requires
            frame@.len() + 4 <= 0xffff,
        ensures
            r@ == add_attr(old(self)@, AttrValue::Frame(frame@)),
            *final(self) == *final(r),
    {
        let d = crate::wire::copy_range(frame, 0, frame.len());
        assert(d@ =~= frame@);
        self.extend_attributes(HwsimAttr::Frame(d));
        self
    }

    /// Adds the transmission flags (HWSIM_ATTR_FLAGS).
    pub fn flags(&mut self, flags: u32) -> (r: &mut Self)
        ensures
            r@ == add_attr(old(self)@, AttrValue::Flags(flags)),
            *final(self) == *final(r),
    {
        self.extend_attributes(HwsimAttr::Flags(flags));
        self
    }

    /// Adds the receive rate index (HWSIM_ATTR_RX_RATE).
    pub fn rx_rate(&mut self, rx_rate_idx: u32) -> (r: &mut Self)
        ensures
            r@ == add_attr(old(self)@, AttrValue::RxRate(rx_rate_idx)),
            *final(self) == *final(r),
    {
        self.extend_attributes(HwsimAttr::RxRate(rx_rate_idx));
        self
    }

    /// Adds the signal strength (HWSIM_ATTR_SIGNAL).
    pub fn signal(&mut self, signal: u32) -> (r: &mut Self)
        ensures
            r@ == add_attr(old(self)@, AttrValue::Signal(signal)),
            *final(self) == *final(r),
    {
        self.extend_attributes(HwsimAttr::Signal(signal));
        self
    }

    /// Adds the cookie that identifies the frame (HWSIM_ATTR_COOKIE).
    pub fn cookie(&mut self, cookie: u64) -> (r: &mut Self)
        ensures
            r@ == add_attr(old(self)@, AttrValue::Cookie(cookie)),
            *final(self) == *final(r),
    {
        self.extend_attributes(HwsimAttr::Cookie(cookie));
        self
    }

    /// Adds the channel frequency (HWSIM_ATTR_FREQ).
    pub fn freq(&mut self, freq: u32) -> (r: &mut Self)
        ensures
            r@ == add_attr(old(self)@, AttrValue::Freq(freq)),
            *final(self) == *final(r),
    {
        self.extend_attributes(HwsimAttr::Freq(freq));
        self
    }

    /// Adds the transmission rates tried (HWSIM_ATTR_TX_INFO).
    pub fn tx_info(&mut self, tx_info: &[TxRate]) -> (r: &mut Self)
        requires
            2 * tx_info@.len() + 4 <= 0xffff,
        ensures
            r@ == add_attr(old(self)@, AttrValue::TxInfo(tx_info@)),
            *final(self) == *final(r),
    {
        let mut v: Vec<TxRate> = Vec::new();
        let mut i: usize = 0;
        while i < tx_info.len()
            invariant
                i <= tx_info@.len(),
                v@ == tx_info@.take(i as int),
            decreases tx_info@.len() - i,
        {
            v.push(tx_info[i]);
            i = i + 1;
            assert(v@ =~= tx_info@.take(i as int));
        }
        assert(v@ =~= tx_info@);
        self.extend_attributes(HwsimAttr::TxInfo(v));
        self
    }

    /// Adds the flags of the transmission rates (HWSIM_ATTR_TX_INFO_FLAGS).
    pub fn tx_info_flags(&mut self, tx_rate_flags: &[TxRateFlag]) -> (r: &mut Self)
        requires
            3 * tx_rate_flags@.len() + 4 <= 0xffff,
        ensures
            r@ == add_attr(old(self)@, AttrValue::TxInfoFlags(tx_rate_flags@)),
            *final(self) == *final(r),
    {
        let mut v: Vec<TxRateFlag> = Vec::new();
        let mut i: usize = 0;
        while i < tx_rate_flags.len()
            invariant
                i <= tx_rate_flags@.len(),
                v@ == tx_rate_flags@.take(i as int),
            decreases tx_rate_flags@.len() - i,
        {
            v.push(tx_rate_flags[i]);
            i = i + 1;
            assert(v@ =~= tx_rate_flags@.take(i as int));
        }
        assert(v@ =~= tx_rate_flags@);
        self.extend_attributes(HwsimAttr::TxInfoFlags(v));
        self
    }

    /// The set of the attributes added.
    pub fn build(self) -> (r: Result<HwsimAttrSet, PacketError>)
        ensures
            r matches Ok(set) && set@ == self@,
    {
        Ok(
            HwsimAttrSet {
                transmitter: self.transmitter,
                receiver: self.receiver,
                cookie: self.cookie,
                flags: self.flags,
                rx_rate_idx: self.rx_rate_idx,
                signal: self.signal,
                frame: self.frame,
                freq: self.freq,
                tx_info: self.tx_info,
                tx_info_flags: self.tx_info_flags,
                attributes: self.attributes,
            },
        )
    }
}

/// The replacement frame fits the length field of every frame attribute
/// that is decoded.
pub open spec fn frame_override_fits(l: Seq<AttrValue>, frame: Option<Seq<u8>>) -> bool {
    forall|i: int|
        0 <= i < l.len() && (#[trigger] l[i] is Frame) && frame is Some ==> frame.unwrap().len() + 4
            <= 0xffff
}

pub open spec fn frame_opt(frame: Option<&[u8]>) -> Option<Seq<u8>> {
    match frame {
        Some(f) => Some(f@),
        None => None,
    }
}

pub open spec fn transmitter_opt(transmitter: Option<&[u8; 6]>) -> Option<u64> {
    match transmitter {
        Some(t) => Some(le48(t@)),
        None => None,
    }
}

/// The attributes of `l` with the given replacements.
pub open spec fn override_all(l: Seq<AttrValue>, frame: Option<Seq<u8>>, transmitter: Option<u64>) -> Seq<AttrValue> {
    l.map_values(|a: AttrValue| override_attr(a, frame, transmitter))
}

/// The outcome of decoding a list of attributes: the set of all of them
/// (with the replacements), or the error at which decoding stopped.
pub open spec fn spec_parse_attr_set(
    s: Seq<u8>,
    frame: Option<Seq<u8>>,
    transmitter: Option<u64>,
) -> Result<AttrSetModel, PacketError> {
    let (l, end) = parse_attrs(s);
    match end {
        AttrsEnd::Failed(e) => Err(e),
        _ => Ok(attr_set_of(override_all(l, frame, transmitter))),
    }
}

proof fn lemma_parse_attrs_step(s: Seq<u8>, index: int)
    requires
        0 <= index < s.len(),
    ensures
        ({
            let r = s.skip(index);
            let n = le16(s[index], s[index + 1]) as nat;
            &&& r.len() >= 4 ==> r[0] == s[index] && r[1] == s[index + 1]
            &&& r.len() >= 4 && 4 <= n <= r.len() ==> r.take(n as int) == s.subrange(index, index + n)
            &&& r.len() >= 4 && 4 <= n <= r.len() && align4(n) < r.len() ==> r.skip(align4(n) as int)
                == s.skip(index + align4(n))
        }),
{
    let r = s.skip(index);
    let n = le16(s[index], s[index + 1]) as nat;
    if r.len() >= 4 && 4 <= n <= r.len() {
        assert(r.take(n as int) =~= s.subrange(index, index + n));
        if align4(n) < r.len() {
            assert(r.skip(align4(n) as int) =~= s.skip(index + align4(n)));
        }
    }
}

/// Whether decoding the attributes runs to an end without a panic: every
/// attribute until the last decoded one or the first that fails has a
/// complete header and fits in the bytes that remain.
pub fn attrs_walkable(attributes: &[u8]) -> (r: bool)
    ensures
        r == !(parse_attrs(attributes@).1 is Panics),
{
    let ghost s = attributes@;
    let mut index: usize = 0;
    assert(s.skip(0) =~= s);
    while index < attributes.len()
        invariant
            s == attributes@,
            index <= attributes.len(),
            parse_attrs(s).1 == parse_attrs(s.skip(index as int)).1,
        decreases attributes.len() - index,
    {
        let ghost rest = s.skip(index as int);
        proof {
            lemma_parse_attrs_step(s, index as int);
        }
        let rem = attributes.len() - index;
        if rem < 4 {
            return false;
        }
        let n = read_u16(attributes, index) as usize;
        if n > rem {
            return false;
        }
        if n < 4 {
            return true;
        }
        match parse_attr_at(attributes, index, n) {
            Ok(a) => {},
            Err(e) => {
                return true;
            },
        }
        let ghost step = align4(n as nat);
        let ghost next = if step >= rest.len() {
            Seq::<u8>::empty()
        } else {
            rest.skip(step as int)
        };
        assert(parse_attrs(rest).1 == parse_attrs(next).1);
        let padded = nla_align(n);
        if padded >= rem {
            index = attributes.len();
            assert(s.skip(index as int) =~= Seq::<u8>::empty());
        } else {
            index = index + padded;
        }
    }
    assert(s.skip(index as int) =~= Seq::<u8>::empty());
    true
}

impl HwsimAttrSet {
    /// Decodes and validates the attributes of a hwsim message.
    pub fn parse(attributes: &[u8]) -> (r: Result<HwsimAttrSet, PacketError>)
        requires
            !(parse_attrs(attributes@).1 is Panics),
        ensures
            match spec_parse_attr_set(attributes@, None, None) {
                Ok(m) => r matches Ok(set) && set@ == m,
                Err(e) => r == Err::<HwsimAttrSet, PacketError>(e),
            },
    {
        Self::parse_with_frame_transmitter(attributes, None, None)
    }

    /// Decodes and validates the attributes of a hwsim message, replacing
    /// the frame and the transmitter address where replacements are given.
    #[verifier::rlimit(40)]
    pub fn parse_with_frame_transmitter(
        attributes: &[u8],
        frame: Option<&[u8]>,
        transmitter: Option<&[u8; 6]>,
    ) -> (r: Result<HwsimAttrSet, PacketError>)
        requires
            !(parse_attrs(attributes@).1 is Panics),
            frame_override_fits(parse_attrs(attributes@).0, frame_opt(frame)),
        ensures
            match spec_parse_attr_set(attributes@, frame_opt(frame), transmitter_opt(transmitter)) {
                Ok(m) => r matches Ok(set) && set@ == m,
                Err(e) => r == Err::<HwsimAttrSet, PacketError>(e),
            },
    {
        let ghost s = attributes@;
        let ghost fo = frame_opt(frame);
        let ghost to = transmitter_opt(transmitter);
        let ghost full = parse_attrs(s);
        let mut index: usize = 0;
        let mut builder = HwsimAttrSet::builder();
        let ghost mut done: Seq<AttrValue> = Seq::empty();
        assert(s.skip(0) =~= s);
        assert(override_all(done, fo, to) =~= Seq::<AttrValue>::empty());
        while index < attributes.len()
            invariant
                s == attributes@,
                fo == frame_opt(frame),
                to == transmitter_opt(transmitter),
                full == parse_attrs(s),
                !(full.1 is Panics),
                frame_override_fits(full.0, fo),
                index <= attributes.len(),
                full.0 == done + parse_attrs(s.skip(index as int)).0,
                full.1 == parse_attrs(s.skip(index as int)).1,
                builder@ == attr_set_of(override_all(done, fo, to)),
            decreases attributes.len() - index,
        {
            let ghost rest = s.skip(index as int);
            proof {
                lemma_parse_attrs_step(s, index as int);
            }
            let rem = attributes.len() - index;
            if rem < 4 {
                assert(parse_attrs(rest).1 is Panics);
                assert(false);
            }
            let n = read_u16(attributes, index) as usize;
            if n > rem {
                assert(false);
            }
            if n < 4 {
                return Err(PacketError::InvalidLength);
            }
            let a = match parse_attr_at(attributes, index, n) {
                Ok(a) => a,
                Err(e) => {
                    return Err(e);
                },
            };
            let ghost av = a@;
            let ghost step = align4(n as nat);
            let ghost next = if step >= rest.len() {
                Seq::<u8>::empty()
            } else {
                rest.skip(step as int)
            };
            assert(parse_attrs(rest) == (seq![av] + parse_attrs(next).0, parse_attrs(next).1));
            assert(full.0[done.len() as int] == av) by {
                assert((done + (seq![av] + parse_attrs(next).0))[done.len() as int] == av);
            }
            let ghost ov = override_attr(av, fo, to);
            match a {
                HwsimAttr::AddrTransmitter(m) => {
                    proof {
                        lemma_le48(m.0, seq![0u8, 0u8, 0u8, 0u8, 0u8, 0u8]);
                        lemma_le48(0, s.subrange(index + 4, index + 10));
                    }
                    match transmitter {
                        Some(t) => builder.transmitter(t),
                        None => builder.transmitter(&m.to_vec()),
                    };
                },
                HwsimAttr::AddrReceiver(m) => {
                    proof {
                        lemma_le48(m.0, seq![0u8, 0u8, 0u8, 0u8, 0u8, 0u8]);
                        lemma_le48(0, s.subrange(index + 4, index + 10));
                    }
                    builder.receiver(&m.to_vec());
                },
                HwsimAttr::Frame(d) => {
                    match frame {
                        Some(f) => builder.frame(f),
                        None => builder.frame(d.as_slice()),
                    };
                },
                HwsimAttr::Flags(v) => {
                    builder.flags(v);
                },
                HwsimAttr::RxRate(v) => {
                    builder.rx_rate(v);
                },
                HwsimAttr::Signal(v) => {
                    builder.signal(v);
                },
                HwsimAttr::Cookie(v) => {
                    builder.cookie(v);
                },
                HwsimAttr::Freq(v) => {
                    builder.freq(v);
                },
                HwsimAttr::TxInfo(r) => {
                    builder.tx_info(r.as_slice());
                },
                HwsimAttr::TxInfoFlags(r) => {
                    builder.tx_info_flags(r.as_slice());
                },
            }
            proof {
                let nd = done.push(av);
                assert(override_all(nd, fo, to) =~= override_all(done, fo, to).push(ov));
                assert(override_all(nd, fo, to).drop_last() =~= override_all(done, fo, to));
                assert(full.0 =~= nd + parse_attrs(next).0);
                done = nd;
            }
            let padded = nla_align(n);
            if padded >= rem {
                index = attributes.len();
                assert(s.skip(index as int) =~= Seq::<u8>::empty());
            } else {
                index = index + padded;
            }
        }
        assert(s.skip(index as int) =~= Seq::<u8>::empty());
        assert(full.0 =~= done);
        builder.build()
    }

    pub fn builder() -> (r: HwsimAttrSetBuilder)
        ensures
            r@ == empty_attr_set(),
    {
        let r = HwsimAttrSetBuilder {
            transmitter: None,
            receiver: None,
            frame: None,
            flags: None,
            rx_rate_idx: None,
            signal: None,
            cookie: None,
            freq: None,
            tx_info: None,
            tx_info_flags: None,
            attributes: Vec::new(),
        };
        assert(r@.attributes =~= Seq::<u8>::empty());
        r
    }
}

/// Commands of the hwsim generic netlink family.
#[derive(Clone, Copy, PartialEq, Eq, Structural, Debug)]
pub enum HwsimCmd {
    Unspec,
    Register,
    Frame,
    TxInfoFrame,
    NewRadio,
    DelRadio,
    GetRadio,
    AddMacAddr,
    DelMacAddr,
}

/// The command with the given code, for the nine codes that have one.
pub open spec fn hwsim_cmd_of(v: u8) -> Option<HwsimCmd> {
    if v == 0 {
        Some(HwsimCmd::Unspec)
    } else if v == 1 {
        Some(HwsimCmd::Register)
    } else if v == 2 {
        Some(HwsimCmd::Frame)
    } else if v == 3 {
        Some(HwsimCmd::TxInfoFrame)
    } else if v == 4 {
        Some(HwsimCmd::NewRadio)
    } else if v == 5 {
        Some(HwsimCmd::DelRadio)
    } else if v == 6 {
        Some(HwsimCmd::GetRadio)
    } else if v == 7 {
        Some(HwsimCmd::AddMacAddr)
    } else if v == 8 {
        Some(HwsimCmd::DelMacAddr)
    } else {
        None
    }
}

impl HwsimCmd {
    /// The command's code.
    pub open spec fn spec_value(self) -> u8 {
        match self {
            HwsimCmd::Unspec => 0,
            HwsimCmd::Register => 1,
            HwsimCmd::Frame => 2,
            HwsimCmd::TxInfoFrame => 3,
            HwsimCmd::NewRadio => 4,
            HwsimCmd::DelRadio => 5,
            HwsimCmd::GetRadio => 6,
            HwsimCmd::AddMacAddr => 7,
            HwsimCmd::DelMacAddr => 8,
        }
    }

    /// The command's code.
    pub fn value(&self) -> (r: u8)
        ensures
            r == self.spec_value(),
    {
        match self {
            HwsimCmd::Unspec => 0,
            HwsimCmd::Register => 1,
            HwsimCmd::Frame => 2,
            HwsimCmd::TxInfoFrame => 3,
            HwsimCmd::NewRadio => 4,
            HwsimCmd::DelRadio => 5,
            HwsimCmd::GetRadio => 6,
            HwsimCmd::AddMacAddr => 7,
            HwsimCmd::DelMacAddr => 8,
        }
    }

    /// The command with the given code.
    pub fn from_value(v: u8) -> (r: Option<HwsimCmd>)
        ensures
            r == hwsim_cmd_of(v),
    {
        if v == 0 {
            Some(HwsimCmd::Unspec)
        } else if v == 1 {
            Some(HwsimCmd::Register)
        } else if v == 2 {
            Some(HwsimCmd::Frame)
        } else if v == 3 {
            Some(HwsimCmd::TxInfoFrame)
        } else if v == 4 {
            Some(HwsimCmd::NewRadio)
        } else if v == 5 {
            Some(HwsimCmd::DelRadio)
        } else if v == 6 {
            Some(HwsimCmd::GetRadio)
        } else if v == 7 {
            Some(HwsimCmd::AddMacAddr)
        } else if v == 8 {
            Some(HwsimCmd::DelMacAddr)
        } else {
            None
        }
    }
}

/// The netlink message header.
#[derive(Clone, Copy, PartialEq, Eq, Structural, Debug)]
pub struct NlMsgHdr {
    pub nlmsg_len: u32,
    pub nlmsg_type: u16,
    pub nlmsg_flags: u16,
    pub nlmsg_seq: u32,
    pub nlmsg_pid: u32,
}

/// The generic netlink header of a hwsim message.
#[derive(Clone, Copy, PartialEq, Eq, Structural, Debug)]
pub struct HwsimMsgHdr {
    pub hwsim_cmd: HwsimCmd,
    pub hwsim_version: u8,
    pub reserved: u16,
}

/// A hwsim message: the headers and the attribute bytes.
#[derive(Debug, PartialEq, Eq)]
pub struct HwsimMsg {
    pub nl_hdr: NlMsgHdr,
    pub hwsim_hdr: HwsimMsgHdr,
    pub attributes: Vec<u8>,
}

impl View for HwsimMsg {
    type V = (NlMsgHdr, HwsimMsgHdr, Seq<u8>);

    open spec fn view(&self) -> (NlMsgHdr, HwsimMsgHdr, Seq<u8>) {
        (self.nl_hdr, self.hwsim_hdr, self.attributes@)
    }
}

/// The sixteen bytes of a netlink header.
pub open spec fn nl_hdr_bytes(h: NlMsgHdr) -> Seq<u8> {
    le32_bytes(h.nlmsg_len) + le16_bytes(h.nlmsg_type) + le16_bytes(h.nlmsg_flags) + le32_bytes(
        h.nlmsg_seq,
    ) + le32_bytes(h.nlmsg_pid)
}

/// The four bytes of a generic netlink header.
pub open spec fn hwsim_hdr_bytes(h: HwsimMsgHdr) -> Seq<u8> {
    seq![h.hwsim_cmd.spec_value(), h.hwsim_version] + le16_bytes(h.reserved)
}

/// The bytes of a message.
pub open spec fn hwsim_msg_bytes(m: (NlMsgHdr, HwsimMsgHdr, Seq<u8>)) -> Seq<u8> {
    nl_hdr_bytes(m.0) + hwsim_hdr_bytes(m.1) + m.2
}

/// The message that `s` holds: the two headers, then every following byte
/// as attributes. Fails when `s` is shorter than the headers or the command
/// code has no meaning.
pub open spec fn spec_parse_hwsim_msg(s: Seq<u8>) -> Result<(NlMsgHdr, HwsimMsgHdr, Seq<u8>), PacketError> {
    if s.len() < 20 {
        Err(PacketError::TooShort)
    } else {
        match hwsim_cmd_of(s[16]) {
            None => Err(PacketError::UnknownValue),
            Some(cmd) => Ok(
                (
                    NlMsgHdr {
                        nlmsg_len: le32(s[0], s[1], s[2], s[3]),
                        nlmsg_type: le16(s[4], s[5]),
                        nlmsg_flags: le16(s[6], s[7]),
                        nlmsg_seq: le32(s[8], s[9], s[10], s[11]),
                        nlmsg_pid: le32(s[12], s[13], s[14], s[15]),
                    },
                    HwsimMsgHdr { hwsim_cmd: cmd, hwsim_version: s[17], reserved: le16(s[18], s[19]) },
                    s.skip(20),
                ),
            ),
        }
    }
}

/// Decoding the bytes of a message gives back the message.
pub proof fn lemma_hwsim_msg_roundtrip(m: (NlMsgHdr, HwsimMsgHdr, Seq<u8>))
    ensures
        spec_parse_hwsim_msg(hwsim_msg_bytes(m)) == Ok::<(NlMsgHdr, HwsimMsgHdr, Seq<u8>), PacketError>(m),
{
    let s = hwsim_msg_bytes(m);
    let h = m.0;
    lemma_le32(h.nlmsg_len, 0, 0, 0, 0);
    lemma_le32(h.nlmsg_seq, 0, 0, 0, 0);
    lemma_le32(h.nlmsg_pid, 0, 0, 0, 0);
    lemma_le16(h.nlmsg_type, 0, 0);
    lemma_le16(h.nlmsg_flags, 0, 0);
    lemma_le16(m.1.reserved, 0, 0);
    assert(s.skip(20) =~= m.2);
    assert(hwsim_cmd_of(m.1.hwsim_cmd.spec_value()) == Some(m.1.hwsim_cmd));
}

/// Encoding a decoded message gives back its bytes.
pub proof fn lemma_hwsim_msg_bytes_roundtrip(s: Seq<u8>)
    requires
        spec_parse_hwsim_msg(s) is Ok,
    ensures
        hwsim_msg_bytes(spec_parse_hwsim_msg(s)->Ok_0) == s,
{
    let m = spec_parse_hwsim_msg(s)->Ok_0;
    lemma_le32(0, s[0], s[1], s[2], s[3]);
    lemma_le32(0, s[8], s[9], s[10], s[11]);
    lemma_le32(0, s[12], s[13], s[14], s[15]);
    lemma_le16(0, s[4], s[5]);
    lemma_le16(0, s[6], s[7]);
    lemma_le16(0, s[18], s[19]);
    assert(m.1.hwsim_cmd.spec_value() == s[16]);
    assert(hwsim_msg_bytes(m) =~= s);
}

impl HwsimMsg {
    /// Decodes a message.
    pub fn parse(bytes: &[u8]) -> (r: Result<HwsimMsg, PacketError>)
        ensures
            match spec_parse_hwsim_msg(bytes@) {
                Ok(m) => r matches Ok(msg) && msg@ == m,
                Err(e) => r == Err::<HwsimMsg, PacketError>(e),
            },
    {
        if bytes.len() < 20 {
            return Err(PacketError::TooShort);
        }
        let cmd = match HwsimCmd::from_value(bytes[16]) {
            Some(c) => c,
            None => return Err(PacketError::UnknownValue),
        };
        let attributes = crate::wire::copy_range(bytes, 20, bytes.len() - 20);
        assert(attributes@ =~= bytes@.skip(20));
        Ok(
            HwsimMsg {
                nl_hdr: NlMsgHdr {
                    nlmsg_len: read_u32(bytes, 0),
                    nlmsg_type: read_u16(bytes, 4),
                    nlmsg_flags: read_u16(bytes, 6),
                    nlmsg_seq: read_u32(bytes, 8),
                    nlmsg_pid: read_u32(bytes, 12),
                },
                hwsim_hdr: HwsimMsgHdr {
                    hwsim_cmd: cmd,
                    hwsim_version: bytes[17],
                    reserved: read_u16(bytes, 18),
                },
                attributes,
            },
        )
    }

    /// The bytes of the message.
    pub fn encode_to_vec(&self) -> (r: Vec<u8>)
        ensures
            r@ == hwsim_msg_bytes(self@),
    {
        let mut out: Vec<u8> = Vec::new();
        push_u32(&mut out, self.nl_hdr.nlmsg_len);
        push_u16(&mut out, self.nl_hdr.nlmsg_type);
        push_u16(&mut out, self.nl_hdr.nlmsg_flags);
        push_u32(&mut out, self.nl_hdr.nlmsg_seq);
        push_u32(&mut out, self.nl_hdr.nlmsg_pid);
        out.push(self.hwsim_hdr.hwsim_cmd.value());
        out.push(self.hwsim_hdr.hwsim_version);
        push_u16(&mut out, self.hwsim_hdr.reserved);
        push_bytes(&mut out, self.attributes.as_slice());
        assert(out@ =~= hwsim_msg_bytes(self@));
        out
    }

    /// The netlink header.
    pub fn get_nl_hdr(&self) -> (r: &NlMsgHdr)
        ensures
            *r == self.nl_hdr,
    {
        &self.nl_hdr
    }

    /// The generic netlink header.
    pub fn get_hwsim_hdr(&self) -> (r: &HwsimMsgHdr)
        ensures
            *r == self.hwsim_hdr,
    {
        &self.hwsim_hdr
    }

    /// The attribute bytes.
    pub fn get_attributes(&self) -> (r: &[u8])
        ensures
            r@ == self.attributes@,
    {
        self.attributes.as_slice()
    }

    /// A copy of the message.
    pub fn clone_msg(&self) -> (r: HwsimMsg)
        ensures
            r@ == self@,
    {
        HwsimMsg {
            nl_hdr: self.nl_hdr,
            hwsim_hdr: self.hwsim_hdr,
            attributes: crate::wire::clone_bytes(&self.attributes),
        }
    }
}

/// A copy of a list of rates.
pub fn clone_rates(v: &Vec<TxRate>) -> (r: Vec<TxRate>)
    ensures
        r@ == v@,
{
    let mut r: Vec<TxRate> = Vec::new();
    let mut i: usize = 0;
    while i < v.len()
        invariant
            i <= v@.len(),
            r@ == v@.take(i as int),
        decreases v@.len() - i,
    {
        r.push(v[i]);
        i = i + 1;
        assert(r@ =~= v@.take(i as int));
    }
    assert(v@.take(v@.len() as int) =~= v@);
    r
}

/// Every attribute's length field and type fit in 16 bits.
pub open spec fn all_fit(l: Seq<AttrValue>) -> bool {
    forall|i: int| 0 <= i < l.len() ==> attr_fits(#[trigger] l[i])
}

/// The variable-size values of a set fit an attribute.
pub open spec fn set_fits(m: AttrSetModel) -> bool {
    &&& (m.frame matches Some(f) ==> f.len() + 4 <= 0xffff)
    &&& (m.tx_info matches Some(r) ==> 2 * r.len() + 4 <= 0xffff)
    &&& (m.tx_info_flags matches Some(r) ==> 3 * r.len() + 4 <= 0xffff)
}

/// Every decoded attribute fits its length field.
pub proof fn lemma_parse_attrs_fit(s: Seq<u8>)
    ensures
        all_fit(parse_attrs(s).0),
    decreases s.len(),
{
    if s.len() >= 4 {
        let n = le16(s[0], s[1]) as nat;
        if 4 <= n <= s.len() {
            if let Ok(a) = parse_attr(s.take(n as int)) {
                let step = align4(n);
                let rest = if step >= s.len() {
                    Seq::<u8>::empty()
                } else {
                    s.skip(step as int)
                };
                lemma_parse_attrs_fit(rest);
                let p = s.take(n as int).skip(4);
                assert(p.len() == n - 4);
                assert(n <= 0xffff);
                assert(attr_fits(a));
                let l = parse_attrs(s).0;
                assert(l == seq![a] + parse_attrs(rest).0);
                assert forall|i: int| 0 <= i < l.len() implies attr_fits(#[trigger] l[i]) by {
                    if i > 0 {
                        assert(l[i] == parse_attrs(rest).0[i - 1]);
                    }
                }
            }
        }
    }
}

/// A set built from fitting attributes holds values that fit.
pub proof fn lemma_set_fits(l: Seq<AttrValue>)
    requires
        all_fit(l),
    ensures
        set_fits(attr_set_of(l)),
    decreases l.len(),
{
    if l.len() > 0 {
        assert(all_fit(l.drop_last())) by {
            assert forall|i: int| 0 <= i < l.drop_last().len() implies attr_fits(#[trigger] l.drop_last()[i]) by {
                assert(l.drop_last()[i] == l[i]);
            }
        }
        lemma_set_fits(l.drop_last());
        assert(attr_fits(l[l.len() - 1]));
    }
}

/// The values of a decoded attribute set fit an attribute.
pub proof fn lemma_parsed_set_fits(s: Seq<u8>)
    ensures
        set_fits(attr_set_of(override_all(parse_attrs(s).0, None, None))),
{
    let l = parse_attrs(s).0;
    lemma_parse_attrs_fit(s);
    assert(override_all(l, None, None) =~= l) by {
        assert forall|i: int| 0 <= i < l.len() implies #[trigger] override_all(l, None, None)[i] == l[i] by {
            match l[i] {
                AttrValue::Transmitter(v) => {},
                AttrValue::Frame(d) => {},
                _ => {},
            }
        }
    }
    lemma_set_fits(l);
}


/// The attribute can be encoded and decoded back: its length field holds
/// its length, and an address holds no more than 48 bits.
pub open spec fn attr_wf(a: AttrValue) -> bool {
    &&& attr_fits(a)
    &&& match a {
        AttrValue::Receiver(v) => v < 0x1_0000_0000_0000u64,
        AttrValue::Transmitter(v) => v < 0x1_0000_0000_0000u64,
        _ => true,
    }
}

proof fn lemma_rates_roundtrip(r: Seq<TxRate>)
    ensures
        rates_bytes(r).len() % 2 == 0,
        rates_of_bytes(rates_bytes(r)) == r,
{
    let b = rates_bytes(r);
    assert forall|i: int| 0 <= i < r.len() implies #[trigger] rates_of_bytes(b)[i] == r[i] by {
        assert((2 * i) % 2 == 0 && (2 * i) / 2 == i) by (nonlinear_arith);
        assert((2 * i + 1) % 2 == 1 && (2 * i + 1) / 2 == i) by (nonlinear_arith);
    }
    assert(rates_of_bytes(b) =~= r);
}

proof fn lemma_rate_flags_roundtrip(r: Seq<TxRateFlag>)
    ensures
        rate_flags_bytes(r).len() % 3 == 0,
        rate_flags_of_bytes(rate_flags_bytes(r)) == r,
{
    let b = rate_flags_bytes(r);
    assert forall|i: int| 0 <= i < r.len() implies #[trigger] rate_flags_of_bytes(b)[i] == r[i] by {
        assert((3 * i) % 3 == 0 && (3 * i) / 3 == i) by (nonlinear_arith);
        assert((3 * i + 1) % 3 == 1 && (3 * i + 1) / 3 == i) by (nonlinear_arith);
        assert((3 * i + 2) % 3 == 2 && (3 * i + 2) / 3 == i) by (nonlinear_arith);
        lemma_le16(r[i].flags, 0, 0);
    }
    assert(rate_flags_of_bytes(b) =~= r);
}

/// Decoding the bytes of an attribute followed by other bytes gives the
/// attribute, then what the other bytes decode to.
proof fn lemma_attr_roundtrip(a: AttrValue, rest: Seq<u8>)
    requires
        attr_wf(a),
    ensures
        parse_attrs(attr_bytes(a) + rest) == (seq![a] + parse_attrs(rest).0, parse_attrs(rest).1),
{
    let p = attr_payload(a);
    let n = (p.len() + 4) as nat;
    let t = attr_type(a);
    let b = attr_bytes(a);
    let s = b + rest;
    lemma_le16(n as u16, 0, 0);
    lemma_le16(t, 0, 0);
    assert(b.len() == align4(n));
    assert(s[0] == b[0] && s[1] == b[1] && s[2] == b[2] && s[3] == b[3]);
    assert(le16(s[0], s[1]) == n as u16);
    let q = s.take(n as int);
    assert(q.skip(4) =~= p);
    assert(q[2] == s[2] && q[3] == s[3]);
    assert(nla_type_of(q) == t);
    match a {
        AttrValue::Receiver(v) => {
            lemma_le48(v, seq![0u8, 0u8, 0u8, 0u8, 0u8, 0u8]);
            assert(p.take(6) =~= p);
        },
        AttrValue::Transmitter(v) => {
            lemma_le48(v, seq![0u8, 0u8, 0u8, 0u8, 0u8, 0u8]);
            assert(p.take(6) =~= p);
        },
        AttrValue::Flags(v) => {
            lemma_le32(v, 0, 0, 0, 0);
        },
        AttrValue::RxRate(v) => {
            lemma_le32(v, 0, 0, 0, 0);
        },
        AttrValue::Signal(v) => {
            lemma_le32(v, 0, 0, 0, 0);
        },
        AttrValue::Freq(v) => {
            lemma_le32(v, 0, 0, 0, 0);
        },
        AttrValue::Cookie(v) => {
            lemma_le64(v, seq![0u8, 0u8, 0u8, 0u8, 0u8, 0u8, 0u8, 0u8]);
            assert(p.take(8) =~= p);
        },
        AttrValue::TxInfo(r) => {
            lemma_rates_roundtrip(r);
        },
        AttrValue::TxInfoFlags(r) => {
            lemma_rate_flags_roundtrip(r);
        },
        AttrValue::Frame(d) => {},
    }
    assert(parse_attr(q) == Ok::<AttrValue, PacketError>(a));
    let step = align4(n);
    if step >= s.len() {
        assert(rest =~= Seq::<u8>::empty());
    } else {
        assert(s.skip(step as int) =~= rest);
    }
}

proof fn lemma_attr_set_bytes_front(a: AttrValue, l: Seq<AttrValue>)
    ensures
        attr_set_of(seq![a] + l).attributes == attr_bytes(a) + attr_set_of(l).attributes,
    decreases l.len(),
{
    if l.len() == 0 {
        assert(seq![a] + l =~= seq![a]);
        assert(seq![a].drop_last() =~= Seq::<AttrValue>::empty());
        assert(attr_set_of(Seq::<AttrValue>::empty()) == empty_attr_set());
        assert(attr_set_of(seq![a]) == add_attr(empty_attr_set(), a));
        assert(attr_bytes(a) + Seq::<u8>::empty() =~= attr_bytes(a));
        assert(Seq::<u8>::empty() + attr_bytes(a) =~= attr_bytes(a));
    } else {
        lemma_attr_set_bytes_front(a, l.drop_last());
        assert((seq![a] + l).drop_last() =~= seq![a] + l.drop_last());
        assert((seq![a] + l).last() == l.last());
        assert(attr_set_of(seq![a] + l) == add_attr(attr_set_of(seq![a] + l.drop_last()), l.last()));
        assert(attr_set_of(l) == add_attr(attr_set_of(l.drop_last()), l.last()));
        assert(attr_bytes(a) + attr_set_of(l.drop_last()).attributes + attr_bytes(l.last()) =~= attr_bytes(a)
            + (attr_set_of(l.drop_last()).attributes + attr_bytes(l.last())));
    }
}

/// Decoding the bytes of a list of attributes gives the list back, and
/// runs to the end.
pub proof fn lemma_attr_list_roundtrip(l: Seq<AttrValue>)
    requires
        forall|i: int| 0 <= i < l.len() ==> attr_wf(#[trigger] l[i]),
    ensures
        parse_attrs(attr_set_of(l).attributes) == (l, AttrsEnd::Complete),
    decreases l.len(),
{
    if l.len() == 0 {
        assert(attr_set_of(l).attributes =~= Seq::<u8>::empty());
    } else {
        let a = l[0];
        let t = l.skip(1);
        assert(seq![a] + t =~= l);
        assert forall|i: int| 0 <= i < t.len() implies attr_wf(#[trigger] t[i]) by {
            assert(t[i] == l[i + 1]);
        }
        lemma_attr_list_roundtrip(t);
        lemma_attr_set_bytes_front(a, t);
        lemma_attr_roundtrip(a, attr_set_of(t).attributes);
    }
}

/// A set of attributes that a builder made decodes back to the same set:
/// the same values of each kind and the same bytes.
pub proof fn lemma_attr_set_roundtrip(l: Seq<AttrValue>)
    requires
        forall|i: int| 0 <= i < l.len() ==> attr_wf(#[trigger] l[i]),
    ensures
        spec_parse_attr_set(attr_set_of(l).attributes, None, None) == Ok::<AttrSetModel, PacketError>(attr_set_of(l)),
{
    lemma_attr_list_roundtrip(l);
    assert(override_all(l, None, None) =~= l) by {
        assert forall|i: int| 0 <= i < l.len() implies #[trigger] override_all(l, None, None)[i] == l[i] by {
            match l[i] {
                AttrValue::Transmitter(v) => {},
                AttrValue::Frame(d) => {},
                _ => {},
            }
        }
    }
}


/// The items' texts separated by `, `: the bytes in decimal.
pub open spec fn bytes_items(v: Seq<u8>) -> Seq<char>
    decreases v.len(),
{
    if v.len() == 0 {
        Seq::empty()
    } else if v.len() == 1 {
        decimal(v[0] as nat)
    } else {
        bytes_items(v.drop_last()) + ", "@ + decimal(v.last() as nat)
    }
}

/// The text of a rate, as its debug form.
pub open spec fn rate_text(r: TxRate) -> Seq<char> {
    "TxRate { idx: "@ + decimal(r.idx as nat) + ", count: "@ + decimal(r.count as nat) + " }"@
}

/// The rates' texts separated by `, `.
pub open spec fn rates_items(v: Seq<TxRate>) -> Seq<char>
    decreases v.len(),
{
    if v.len() == 0 {
        Seq::empty()
    } else if v.len() == 1 {
        rate_text(v[0])
    } else {
        rates_items(v.drop_last()) + ", "@ + rate_text(v.last())
    }
}

/// The text of a rate's flags, as its debug form.
pub open spec fn rate_flag_text(r: TxRateFlag) -> Seq<char> {
    "TxRateFlag { idx: "@ + decimal(r.idx as nat) + ", flags: "@ + decimal(r.flags as nat) + " }"@
}

/// The rate flags' texts separated by `, `.
pub open spec fn rate_flags_items(v: Seq<TxRateFlag>) -> Seq<char>
    decreases v.len(),
{
    if v.len() == 0 {
        Seq::empty()
    } else if v.len() == 1 {
        rate_flag_text(v[0])
    } else {
        rate_flags_items(v.drop_last()) + ", "@ + rate_flag_text(v.last())
    }
}

/// The label, the value and `, ` for a present value, else nothing.
pub open spec fn field_text(label: Seq<char>, v: Option<Seq<char>>) -> Seq<char> {
    match v {
        Some(t) => label + t + ", "@,
        None => Seq::empty(),
    }
}

/// The text of a set of attributes: `{ `, then `name: value, ` for each
/// value present (transmitter, receiver, cookie, flags, receive rate,
/// signal, frame, frequency, rates, rate flags), then `}`.
pub open spec fn attr_set_text(m: AttrSetModel) -> Seq<char> {
    "{ "@ + field_text("transmitter: "@, match m.transmitter {
        Some(v) => Some(mac_text(le48_bytes(v))),
        None => None,
    }) + field_text("receiver: "@, match m.receiver {
        Some(v) => Some(mac_text(le48_bytes(v))),
        None => None,
    }) + field_text("cookie: "@, match m.cookie {
        Some(v) => Some(decimal(v as nat)),
        None => None,
    }) + field_text("flags: "@, match m.flags {
        Some(v) => Some(decimal(v as nat)),
        None => None,
    }) + field_text("rx_rate_idx: "@, match m.rx_rate_idx {
        Some(v) => Some(decimal(v as nat)),
        None => None,
    }) + field_text("signal: "@, match m.signal {
        Some(v) => Some(decimal(v as nat)),
        None => None,
    }) + field_text("frame: "@, match m.frame {
        Some(v) => Some("["@ + bytes_items(v) + "]"@),
        None => None,
    }) + field_text("freq: "@, match m.freq {
        Some(v) => Some(decimal(v as nat)),
        None => None,
    }) + field_text("tx_info: "@, match m.tx_info {
        Some(v) => Some("["@ + rates_items(v) + "]"@),
        None => None,
    }) + field_text("tx_info_flags: "@, match m.tx_info_flags {
        Some(v) => Some("["@ + rate_flags_items(v) + "]"@),
        None => None,
    }) + "}"@
}

fn push_number(s: &mut String, n: u64)
    ensures
        final(s)@ == old(s)@ + decimal(n as nat),
{
    proof {
        lemma_decimal_nonempty(n as nat);
    }
    push_decimal(s, n, 0);
}

fn push_bytes_list(s: &mut String, v: &[u8])
    ensures
        final(s)@ == old(s)@ + "["@ + bytes_items(v@) + "]"@,
{
    let ghost start = s@;
    push_str(s, "[");
    let mut i: usize = 0;
    while i < v.len()
        invariant
            i <= v@.len(),
            s@ == start + "["@ + bytes_items(v@.take(i as int)),
        decreases v@.len() - i,
    {
        let ghost before = s@;
        if i > 0 {
            push_str(s, ", ");
        }
        push_number(s, v[i] as u64);
        proof {
            assert(v@.take(i + 1).drop_last() =~= v@.take(i as int));
            assert(v@.take(i + 1).last() == v@[i as int]);
            if i == 0 {
                assert(v@.take(0) =~= Seq::<u8>::empty());
                assert(v@.take(1) =~= seq![v@[0]]);
            }
            assert(s@ =~= start + "["@ + bytes_items(v@.take(i + 1)));
        }
        i = i + 1;
    }
    assert(v@.take(v@.len() as int) =~= v@);
    push_str(s, "]");
}

fn push_rates_list(s: &mut String, v: &[TxRate])
    ensures
        final(s)@ == old(s)@ + "["@ + rates_items(v@) + "]"@,
{
    let ghost start = s@;
    push_str(s, "[");
    let mut i: usize = 0;
    while i < v.len()
        invariant
            i <= v@.len(),
            s@ == start + "["@ + rates_items(v@.take(i as int)),
        decreases v@.len() - i,
    {
        if i > 0 {
            push_str(s, ", ");
        }
        let r = v[i];
        let ghost mid = s@;
        push_str(s, "TxRate { idx: ");
        push_number(s, r.idx as u64);
        push_str(s, ", count: ");
        push_number(s, r.count as u64);
        push_str(s, " }");
        proof {
            assert(s@ =~= mid + rate_text(r));
            assert(v@.take(i + 1).drop_last() =~= v@.take(i as int));
            assert(v@.take(i + 1).last() == v@[i as int]);
            if i == 0 {
                assert(v@.take(1) =~= seq![v@[0]]);
            }
            assert(s@ =~= start + "["@ + rates_items(v@.take(i + 1)));
        }
        i = i + 1;
    }
    assert(v@.take(v@.len() as int) =~= v@);
    push_str(s, "]");
}

fn push_rate_flags_list(s: &mut String, v: &[TxRateFlag])
    ensures
        final(s)@ == old(s)@ + "["@ + rate_flags_items(v@) + "]"@,
{
    let ghost start = s@;
    push_str(s, "[");
    let mut i: usize = 0;
    while i < v.len()
        invariant
            i <= v@.len(),
            s@ == start + "["@ + rate_flags_items(v@.take(i as int)),
        decreases v@.len() - i,
    {
        if i > 0 {
            push_str(s, ", ");
        }
        let r = v[i];
        let ghost mid = s@;
        push_str(s, "TxRateFlag { idx: ");
        push_number(s, r.idx as u64);
        push_str(s, ", flags: ");
        push_number(s, r.flags as u64);
        push_str(s, " }");
        proof {
            assert(s@ =~= mid + rate_flag_text(r));
            assert(v@.take(i + 1).drop_last() =~= v@.take(i as int));
            assert(v@.take(i + 1).last() == v@[i as int]);
            if i == 0 {
                assert(v@.take(1) =~= seq![v@[0]]);
            }
            assert(s@ =~= start + "["@ + rate_flags_items(v@.take(i + 1)));
        }
        i = i + 1;
    }
    assert(v@.take(v@.len() as int) =~= v@);
    push_str(s, "]");
}

fn push_mac_field(s: &mut String, label: &str, v: Option<MacAddress>)
    ensures
        final(s)@ == old(s)@ + field_text(label@, match mac_opt(v) {
            Some(x) => Some(mac_text(le48_bytes(x))),
            None => None,
        }),
{
    match v {
        Some(a) => {
            push_str(s, label);
            let m = a.to_string();
            push_str(s, m.as_str());
            push_str(s, ", ");
        },
        None => {},
    }
    assert(final(s)@ =~= old(s)@ + field_text(label@, match mac_opt(v) {
        Some(x) => Some(mac_text(le48_bytes(x))),
        None => None,
    }));
}

fn push_number_field(s: &mut String, label: &str, v: Option<u64>)
    ensures
        final(s)@ == old(s)@ + field_text(label@, match v {
            Some(x) => Some(decimal(x as nat)),
            None => None,
        }),
{
    match v {
        Some(x) => {
            push_str(s, label);
            push_number(s, x);
            push_str(s, ", ");
        },
        None => {},
    }
    assert(final(s)@ =~= old(s)@ + field_text(label@, match v {
        Some(x) => Some(decimal(x as nat)),
        None => None,
    }));
}

fn widen(v: Option<u32>) -> (r: Option<u64>)
    ensures
        r == (match v {
            Some(x) => Some(x as u64),
            None => None::<u64>,
        }),
{
    match v {
        Some(x) => Some(x as u64),
        None => None,
    }
}

impl HwsimAttrSet {
    /// The set as text (see `attr_set_text`), as it is printed.
    #[verifier::spinoff_prover]
    #[verifier::rlimit(50)]
    pub fn to_string(&self) -> (r: String)
        ensures
            r@ == attr_set_text(self@),
    {
        let mut s = String::new();
        push_str(&mut s, "{ ");
        let ghost t0 = s@;
        push_mac_field(&mut s, "transmitter: ", self.transmitter);
        let ghost t1 = s@;
        push_mac_field(&mut s, "receiver: ", self.receiver);
        let ghost t2 = s@;
        push_number_field(&mut s, "cookie: ", self.cookie);
        let ghost t3 = s@;
        push_number_field(&mut s, "flags: ", widen(self.flags));
        let ghost t4 = s@;
        push_number_field(&mut s, "rx_rate_idx: ", widen(self.rx_rate_idx));
        let ghost t5 = s@;
        push_number_field(&mut s, "signal: ", widen(self.signal));
        let ghost t6 = s@;
        match &self.frame {
            Some(v) => {
                push_str(&mut s, "frame: ");
                push_bytes_list(&mut s, v.as_slice());
                push_str(&mut s, ", ");
            },
            None => {},
        }
        let ghost t7 = s@;
        push_number_field(&mut s, "freq: ", widen(self.freq));
        let ghost t8 = s@;
        match &self.tx_info {
            Some(v) => {
                push_str(&mut s, "tx_info: ");
                push_rates_list(&mut s, v.as_slice());
                push_str(&mut s, ", ");
            },
            None => {},
        }
        let ghost t9 = s@;
        match &self.tx_info_flags {
            Some(v) => {
                push_str(&mut s, "tx_info_flags: ");
                push_rate_flags_list(&mut s, v.as_slice());
                push_str(&mut s, ", ");
            },
            None => {},
        }
        let ghost t10 = s@;
        push_str(&mut s, "}");
        proof {
            let m = self@;
            assert(t0 =~= "{ "@);
            assert(t7 =~= t6 + field_text("frame: "@, match m.frame {
                Some(v) => Some("["@ + bytes_items(v) + "]"@),
                None => None,
            }));
            assert(t9 =~= t8 + field_text("tx_info: "@, match m.tx_info {
                Some(v) => Some("["@ + rates_items(v) + "]"@),
                None => None,
            }));
            assert(t10 =~= t9 + field_text("tx_info_flags: "@, match m.tx_info_flags {
                Some(v) => Some("["@ + rate_flags_items(v) + "]"@),
                None => None,
            }));
            assert(s@ == t10 + "}"@);
            assert(s@ == attr_set_text(m));
        }
        s
    }
}

} // verus!
