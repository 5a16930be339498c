//! The wireless medium that connects the emulated Wi-Fi stations: hwsim
//! command handling, the station and client registry, and frame delivery.

use crate::error::PacketError;
use crate::frame::{spec_frame_attrs, Frame};
use crate::hwsim::{
    add_attr, attr_set_of, empty_attr_set, lemma_parsed_set_fits, override_all, parse_attrs,
    spec_parse_attr_set, spec_parse_hwsim_msg, AttrSetModel, AttrValue, HwsimAttrSet, HwsimCmd,
    HwsimMsg, HwsimMsgHdr, NlMsgHdr,
};
use crate::hwsim::{attr_bytes, attr_wf, attrs_walkable, hwsim_msg_bytes, lemma_attr_set_roundtrip, set_fits};
use crate::ieee80211::{
    child_body_bytes, from_ap_child, ieee80211_bytes, lemma_child_bytes_roundtrip,
    lemma_ieee80211_bytes_roundtrip, spec_parse_child, spec_parse_ieee80211, ChildModel, DsKind,
    FrameFields, MacAddress,
};
use crate::wire::{le48, le48_bytes};
use std::collections::HashMap;
use vstd::prelude::*;

verus! {

/// The smallest netlink message type of a protocol family.
pub const NLMSG_MIN_TYPE: u16 = 0x10;

/// The receive rate index given to frames that carry none.
pub const RX_RATE: u32 = 0;

/// The signal given to frames that carry none: -50 dBm as an unsigned value.
pub const SIGNAL: u32 = 4294967246;

/// The transmission status bit that acknowledges a frame.
pub const HWSIM_TX_STAT_ACK: u32 = 4;

/// A hwsim command, with the frame decoded for Frame commands.
#[derive(Debug)]
pub enum HwsimCmdEnum {
    Unspec,
    Register,
    Frame(Box<Frame>),
    TxInfoFrame,
    NewRadio,
    DelRadio,
    GetRadio,
    AddMacAddr,
    DelMacAddr,
}

/// The packet decodes, and when it holds a Frame command its attributes can
/// be walked without running past the end.
pub open spec fn hwsim_cmd_walkable(s: Seq<u8>) -> bool {
    match spec_parse_hwsim_msg(s) {
        Ok(m) => m.1.hwsim_cmd == HwsimCmd::Frame ==> !(parse_attrs(m.2).1 is Panics),
        Err(_) => true,
    }
}

/// Decodes the hwsim command of a packet; used for packet capture.
pub fn parse_hwsim_cmd(packet: &[u8]) -> (r: Result<HwsimCmdEnum, PacketError>)
    requires
        hwsim_cmd_walkable(packet@),
    ensures
        match spec_parse_hwsim_msg(packet@) {
            Err(e) => r == Err::<HwsimCmdEnum, PacketError>(e),
            Ok(m) => if m.1.hwsim_cmd == HwsimCmd::Frame {
                match spec_frame_attrs(m.2) {
                    Ok(am) => r matches Ok(HwsimCmdEnum::Frame(f)) && f.holds(am, m),
                    Err(e) => r == Err::<HwsimCmdEnum, PacketError>(e),
                }
            } else if m.1.hwsim_cmd == HwsimCmd::TxInfoFrame {
                r matches Ok(HwsimCmdEnum::TxInfoFrame)
            } else {
                r == Err::<HwsimCmdEnum, PacketError>(PacketError::UnexpectedCommand)
            },
        },
{
    let hwsim_msg = match HwsimMsg::parse(packet) {
        Ok(m) => m,
        Err(e) => return Err(e),
    };
    match hwsim_msg.hwsim_hdr.hwsim_cmd {
        HwsimCmd::Frame => match Frame::parse(&hwsim_msg) {
            Ok(frame) => Ok(HwsimCmdEnum::Frame(Box::new(frame))),
            Err(e) => Err(e),
        },
        HwsimCmd::TxInfoFrame => Ok(HwsimCmdEnum::TxInfoFrame),
        _ => Err(PacketError::UnexpectedCommand),
    }
}

/// The attributes of the TxInfoFrame that acknowledges a frame with the
/// attributes `m`: its transmitter, its flags with the ACK bit set, its
/// cookie, its signal (or the default), and its rates.
pub open spec fn tx_info_attrs(m: AttrSetModel) -> AttrSetModel {
    let l = seq![
        AttrValue::Transmitter(le48(le48_bytes(m.transmitter.unwrap()))),
        AttrValue::Flags(m.flags.unwrap() | HWSIM_TX_STAT_ACK),
        AttrValue::Cookie(m.cookie.unwrap()),
        AttrValue::Signal(
            match m.signal {
                Some(s) => s,
                None => SIGNAL,
            },
        ),
        AttrValue::TxInfo(m.tx_info.unwrap()),
    ];
    attr_set_of(l)
}

/// The attributes of the message hold a transmitter, flags, a cookie and rates.
pub open spec fn acknowledgeable(m: AttrSetModel) -> bool {
    m.transmitter is Some && m.flags is Some && m.cookie is Some && m.tx_info is Some
}

/// The netlink length of the acknowledgement stays within 32 bits: the
/// received length grown by the new attribute bytes and shrunk by the old.
pub open spec fn tx_info_len_fits(nl: NlMsgHdr, m: AttrSetModel) -> bool {
    let new_len = tx_info_attrs(m).attributes.len();
    &&& new_len < 0x1_0000_0000
    &&& nl.nlmsg_len + new_len <= u32::MAX
    &&& nl.nlmsg_len + new_len >= (m.attributes.len() as u32)
}

proof fn lemma_attr_set_push(l: Seq<AttrValue>, a: AttrValue)
    ensures
        attr_set_of(l.push(a)) == add_attr(attr_set_of(l), a),
{
    assert(l.push(a).drop_last() =~= l);
}

/// The attribute set of the TxInfoFrame that acknowledges a frame with the
/// attributes `attrs` (see `tx_info_attrs`); fails when one of the
/// transmitter, flags, cookie and rates is missing.
fn tx_info_attr_set(attrs: &HwsimAttrSet) -> (r: Result<HwsimAttrSet, PacketError>)
    requires
        set_fits(attrs@),
    ensures
        if acknowledgeable(attrs@) {
            r matches Ok(set) && set@ == tx_info_attrs(attrs@)
        } else {
            r == Err::<HwsimAttrSet, PacketError>(PacketError::MissingAttribute)
        },
{
    let ghost m = attrs@;
    let transmitter = match attrs.transmitter {
        Some(t) => t,
        None => return Err(PacketError::MissingAttribute),
    };
    let flags = match attrs.flags {
        Some(f) => f,
        None => return Err(PacketError::MissingAttribute),
    };
    let cookie = match attrs.cookie {
        Some(c) => c,
        None => return Err(PacketError::MissingAttribute),
    };
    let tx_info = match &attrs.tx_info {
        Some(t) => t,
        None => return Err(PacketError::MissingAttribute),
    };
    let signal = match attrs.signal {
        Some(s) => s,
        None => SIGNAL,
    };
    let mut new_attr_builder = HwsimAttrSet::builder();
    let tv = transmitter.to_vec();
    new_attr_builder.transmitter(&tv);
    assert(new_attr_builder@ == add_attr(empty_attr_set(), AttrValue::Transmitter(le48(tv@))));
    new_attr_builder.flags(flags | HWSIM_TX_STAT_ACK);
    new_attr_builder.cookie(cookie);
    new_attr_builder.signal(signal);
    new_attr_builder.tx_info(tx_info.as_slice());
    proof {
        let a0 = AttrValue::Transmitter(le48(le48_bytes(m.transmitter.unwrap())));
        let a1 = AttrValue::Flags(m.flags.unwrap() | HWSIM_TX_STAT_ACK);
        let a2 = AttrValue::Cookie(m.cookie.unwrap());
        let a3 = AttrValue::Signal(signal);
        let a4 = AttrValue::TxInfo(m.tx_info.unwrap());
        let l0 = Seq::<AttrValue>::empty();
        lemma_attr_set_push(l0, a0);
        lemma_attr_set_push(l0.push(a0), a1);
        lemma_attr_set_push(l0.push(a0).push(a1), a2);
        lemma_attr_set_push(l0.push(a0).push(a1).push(a2), a3);
        lemma_attr_set_push(l0.push(a0).push(a1).push(a2).push(a3), a4);
        assert(l0.push(a0).push(a1).push(a2).push(a3).push(a4) =~= seq![a0, a1, a2, a3, a4]);
        assert(a0 == AttrValue::Transmitter(le48(tv@)));
        assert(tx_info@ == m.tx_info.unwrap());
        assert(a3 == AttrValue::Signal(match m.signal { Some(s) => s, None => SIGNAL }));
        assert(new_attr_builder@ == attr_set_of(seq![a0, a1, a2, a3, a4]));
        assert(seq![
            AttrValue::Transmitter(le48(le48_bytes(m.transmitter.unwrap()))),
            AttrValue::Flags(m.flags.unwrap() | HWSIM_TX_STAT_ACK),
            AttrValue::Cookie(m.cookie.unwrap()),
            AttrValue::Signal(
                match m.signal {
                    Some(s) => s,
                    None => SIGNAL,
                },
            ),
            AttrValue::TxInfo(m.tx_info.unwrap()),
        ] =~= seq![a0, a1, a2, a3, a4]);
        assert(new_attr_builder@ == tx_info_attrs(m));
    }
    new_attr_builder.build()
}

/// Builds the TxInfoFrame message that acknowledges a Frame message.
pub fn build_tx_info(hwsim_msg: &HwsimMsg) -> (r: Result<HwsimMsg, PacketError>)
    requires
        !(parse_attrs(hwsim_msg.attributes@).1 is Panics),
        spec_parse_attr_set(hwsim_msg.attributes@, None, None) is Ok,
        acknowledgeable(spec_parse_attr_set(hwsim_msg.attributes@, None, None)->Ok_0)
            ==> tx_info_len_fits(hwsim_msg.nl_hdr, spec_parse_attr_set(hwsim_msg.attributes@, None, None)->Ok_0),
    ensures
        ({
            let m = spec_parse_attr_set(hwsim_msg.attributes@, None, None)->Ok_0;
            let n = tx_info_attrs(m).attributes;
            if acknowledgeable(m) {
                r matches Ok(msg) && msg@ == (
                    NlMsgHdr {
                        nlmsg_len: (hwsim_msg.nl_hdr.nlmsg_len + n.len() - (m.attributes.len() as u32)) as u32,
                        nlmsg_type: NLMSG_MIN_TYPE,
                        nlmsg_flags: hwsim_msg.nl_hdr.nlmsg_flags,
                        nlmsg_seq: 0,
                        nlmsg_pid: 0,
                    },
                    HwsimMsgHdr {
                        hwsim_cmd: HwsimCmd::TxInfoFrame,
                        hwsim_version: 0,
                        reserved: hwsim_msg.hwsim_hdr.reserved,
                    },
                    n,
                )
            } else {
                r == Err::<HwsimMsg, PacketError>(PacketError::MissingAttribute)
            }
        }),
{
    let attrs = match HwsimAttrSet::parse(hwsim_msg.get_attributes()) {
        Ok(a) => a,
        Err(_) => {
            assert(false);
            return Err(PacketError::MissingAttribute);
        },
    };
    proof {
        lemma_parsed_set_fits(hwsim_msg.attributes@);
    }
    let new_attr = match tx_info_attr_set(&attrs) {
        Ok(a) => a,
        Err(e) => return Err(e),
    };
    let nl_hdr = hwsim_msg.get_nl_hdr();
    let nlmsg_len = nl_hdr.nlmsg_len + new_attr.attributes.len() as u32 - attrs.attributes.len() as u32;
    Ok(
        HwsimMsg {
            attributes: new_attr.attributes,
            hwsim_hdr: HwsimMsgHdr {
                hwsim_cmd: HwsimCmd::TxInfoFrame,
                hwsim_version: 0,
                reserved: hwsim_msg.hwsim_hdr.reserved,
            },
            nl_hdr: NlMsgHdr {
                nlmsg_len,
                nlmsg_type: NLMSG_MIN_TYPE,
                nlmsg_flags: nl_hdr.nlmsg_flags,
                nlmsg_seq: 0,
                nlmsg_pid: 0,
            },
        },
    )
}

/// A station: a client's radio, known by its 802.11 source address and the
/// hwsim address that messages to it carry.
#[derive(Clone, Copy, PartialEq, Eq, Structural, Debug)]
pub struct Station {
    pub client_id: u32,
    /// The 802.11 source address.
    pub addr: MacAddress,
    /// The hwsim transmitter address, used as the receiver of the messages to it.
    pub hwsim_addr: MacAddress,
}

impl Station {
    /// The station of a client with the given addresses.
    pub fn new(client_id: u32, addr: MacAddress, hwsim_addr: MacAddress) -> (r: Self)
        ensures
            r == (Station { client_id, addr, hwsim_addr }),
    {
        Station { client_id, addr, hwsim_addr }
    }
}

/// The state of a client: whether its radio is enabled, and the numbers of
/// frames it sent and received (counted modulo 2^32).
#[derive(Clone, Copy, PartialEq, Eq, Structural, Debug)]
pub struct Client {
    pub enabled: bool,
    pub tx_count: u32,
    pub rx_count: u32,
}

impl Client {
    /// An enabled client that has sent and received nothing.
    pub fn new() -> (r: Self)
        ensures
            r == (Client { enabled: true, tx_count: 0, rx_count: 0 }),
    {
        Client { enabled: true, tx_count: 0, rx_count: 0 }
    }
}

/// No two stations have the same source address.
pub open spec fn distinct_stations(ss: Seq<Station>) -> bool {
    forall|i: int, j: int| 0 <= i < ss.len() && 0 <= j < ss.len() && i != j ==> ss[i].addr != ss[j].addr
}

/// The wireless medium: the stations by source address (in the order in
/// which they were first seen), the clients by identifier, and the access
/// point that the medium simulates.
pub struct Medium {
    stations: Vec<Station>,
    clients: HashMap<u32, Client>,
    hostapd_bssid: MacAddress,
    ap_simulation: bool,
}

/// What a medium holds.
pub struct MediumModel {
    pub stations: Seq<Station>,
    pub clients: Map<u32, Client>,
    pub hostapd_bssid: MacAddress,
    pub ap_simulation: bool,
}

impl View for Medium {
    type V = MediumModel;

    closed spec fn view(&self) -> MediumModel {
        MediumModel {
            stations: self.stations@,
            clients: self.clients@,
            hostapd_bssid: self.hostapd_bssid,
            ap_simulation: self.ap_simulation,
        }
    }
}

/// The station with the given source address, if one is known.
pub open spec fn station_of(ss: Seq<Station>, addr: MacAddress) -> Option<Station> {
    if exists|i: int| 0 <= i < ss.len() && ss[i].addr == addr {
        Some(ss[choose|i: int| 0 <= i < ss.len() && ss[i].addr == addr])
    } else {
        None
    }
}

/// The medium's invariant: stations have distinct addresses and every
/// station belongs to a known client.
pub open spec fn medium_wf(m: MediumModel) -> bool {
    &&& distinct_stations(m.stations)
    &&& forall|i: int| 0 <= i < m.stations.len() ==> m.clients.contains_key(#[trigger] m.stations[i].client_id)
}

impl Medium {
    /// The representation invariant: client identifiers are distinct, and
    /// the medium's invariant holds.
    pub closed spec fn wf(&self) -> bool {
        medium_wf(self@)
    }

    /// An empty medium whose access point has the BSSID 00:13:10:85:fe:01
    /// and whose frames to it are rewritten as frames from it.
    pub fn new() -> (r: Medium)
        ensures
            r@.stations == Seq::<Station>::empty(),
            r@.clients == Map::<u32, Client>::empty(),
            r@.hostapd_bssid.octets() == seq![0x00u8, 0x13u8, 0x10u8, 0x85u8, 0xfeu8, 0x01u8],
            r@.ap_simulation,
            medium_wf(r@),
            r.wf(),
    {
        let bssid_bytes: [u8; 6] = [0x00, 0x13, 0x10, 0x85, 0xfe, 0x01];
        let r = Medium {
            stations: Vec::new(),
            clients: HashMap::new(),
            hostapd_bssid: MacAddress::from_octets(&bssid_bytes),
            ap_simulation: true,
        };
        r
    }

    fn station_index(&self, addr: &MacAddress) -> (r: Option<usize>)
        ensures
            match r {
                Some(i) => i < self.stations@.len() && self.stations@[i as int].addr == *addr,
                None => forall|i: int| 0 <= i < self.stations@.len() ==> self.stations@[i].addr != *addr,
            },
    {
        let mut i: usize = 0;
        while i < self.stations.len()
            invariant
                i <= self.stations@.len(),
                forall|k: int| 0 <= k < i ==> self.stations@[k].addr != *addr,
            decreases self.stations@.len() - i,
        {
            if self.stations[i].addr == *addr {
                return Some(i);
            }
            i = i + 1;
        }
        None
    }

    /// Registers a client, enabled and with zero counts, unless it is known.
    pub fn add(&mut self, client_id: u32)
        requires
            old(self).wf(),
        ensures
            final(self).wf(),
            final(self)@.stations == old(self)@.stations,
            final(self)@.hostapd_bssid == old(self)@.hostapd_bssid,
            final(self)@.ap_simulation == old(self)@.ap_simulation,
            final(self)@.clients == (if old(self)@.clients.contains_key(client_id) {
                old(self)@.clients
            } else {
                old(self)@.clients.insert(client_id, Client::new_spec())
            }),
            medium_wf(final(self)@),
    {
        if !self.clients.contains_key(&client_id) {
            self.clients.insert(client_id, Client::new());
        }
    }
}


impl Medium {
    /// Forgets a client and every station of it.
    pub fn remove(&mut self, client_id: u32)
        requires
            old(self).wf(),
        ensures
            final(self).wf(),
            final(self)@.stations == old(self)@.stations.filter(|s: Station| s.client_id != client_id),
            final(self)@.clients == old(self)@.clients.remove(client_id),
            final(self)@.hostapd_bssid == old(self)@.hostapd_bssid,
            final(self)@.ap_simulation == old(self)@.ap_simulation,
    {
        let ghost old_st = self.stations@;
        let ghost pred = |s: Station| s.client_id != client_id;
        let mut kept: Vec<Station> = Vec::new();
        let mut i: usize = 0;
        while i < self.stations.len()
            invariant
                self.wf(),
                old_st == self.stations@,
                pred == (|s: Station| s.client_id != client_id),
                i <= old_st.len(),
                kept@ == old_st.take(i as int).filter(pred),
                distinct_stations(kept@),
                forall|j: int| 0 <= j < kept@.len() ==> exists|k: int| 0 <= k < i && #[trigger] kept@[j] == old_st[k],
            decreases old_st.len() - i,
        {
            let s = self.stations[i];
            proof {
                reveal(Seq::filter);
                assert(old_st.take(i + 1).drop_last() =~= old_st.take(i as int));
            }
            if s.client_id != client_id {
                proof {
                    assert forall|j: int| 0 <= j < kept@.len() implies kept@[j].addr != s.addr by {
                        let k = choose|k: int| 0 <= k < i && kept@[j] == old_st[k];
                        assert(k != i);
                    }
                }
                kept.push(s);
                proof {
                    assert forall|j: int| 0 <= j < kept@.len() implies exists|k: int| 0 <= k < i + 1 && #[trigger] kept@[j] == old_st[k] by {
                        if j == kept@.len() - 1 {
                            assert(kept@[j] == old_st[i as int]);
                        } else {
                            let k = choose|k: int| 0 <= k < i && kept@[j] == old_st[k];
                            assert(kept@[j] == old_st[k]);
                        }
                    }
                }
            }
            i = i + 1;
        }
        assert(old_st.take(old_st.len() as int) =~= old_st);
        self.clients.remove(&client_id);
        self.stations = kept;
        proof {
            assert forall|j: int| 0 <= j < self.stations@.len() implies self@.clients.contains_key(#[trigger] self.stations@[j].client_id) by {
                let k = choose|k: int| 0 <= k < old_st.len() && kept@[j] == old_st[k];
                reveal(Seq::filter);
                old_st.lemma_filter_pred(pred, j);
            }
        }
    }

    /// Re-enables a known client and clears its counts.
    pub fn reset(&mut self, client_id: u32)
        requires
            old(self).wf(),
        ensures
            final(self).wf(),
            final(self)@.stations == old(self)@.stations,
            final(self)@.clients == (if old(self)@.clients.contains_key(client_id) {
                old(self)@.clients.insert(client_id, Client::new_spec())
            } else {
                old(self)@.clients
            }),
            final(self)@.hostapd_bssid == old(self)@.hostapd_bssid,
            final(self)@.ap_simulation == old(self)@.ap_simulation,
    {
        self.update_client(client_id, 0)
    }

    /// Enables or disables a known client.
    pub fn set_enabled(&mut self, client_id: u32, enabled: bool)
        requires
            old(self).wf(),
        ensures
            final(self).wf(),
            final(self)@.stations == old(self)@.stations,
            final(self)@.clients == (if old(self)@.clients.contains_key(client_id) {
                old(self)@.clients.insert(
                    client_id,
                    Client { enabled, ..old(self)@.clients[client_id] },
                )
            } else {
                old(self)@.clients
            }),
            final(self)@.hostapd_bssid == old(self)@.hostapd_bssid,
            final(self)@.ap_simulation == old(self)@.ap_simulation,
    {
        self.update_client(client_id, if enabled { 1 } else { 2 })
    }

    /// Applies a change to a known client: 0 resets it, 1 enables it, 2
    /// disables it, 3 counts a frame sent, 4 counts a frame received.
    fn update_client(&mut self, client_id: u32, change: u8)
        requires
            old(self).wf(),
            change <= 4,
        ensures
            final(self).wf(),
            final(self)@.stations == old(self)@.stations,
            final(self)@.clients == (if old(self)@.clients.contains_key(client_id) {
                old(self)@.clients.insert(client_id, changed(old(self)@.clients[client_id], change))
            } else {
                old(self)@.clients
            }),
            final(self)@.hostapd_bssid == old(self)@.hostapd_bssid,
            final(self)@.ap_simulation == old(self)@.ap_simulation,
    {
        match self.clients.get(&client_id) {
            Some(cr) => {
                let c = *cr;
                let c2 = if change == 0 {
                    Client::new()
                } else if change == 1 {
                    Client { enabled: true, ..c }
                } else if change == 2 {
                    Client { enabled: false, ..c }
                } else if change == 3 {
                    Client { tx_count: c.tx_count.wrapping_add(1), ..c }
                } else {
                    Client { rx_count: c.rx_count.wrapping_add(1), ..c }
                };
                self.clients.insert(client_id, c2);
                proof {
                    assert forall|j: int| 0 <= j < self.stations@.len() implies self@.clients.contains_key(#[trigger] self.stations@[j].client_id) by {
                        assert(old(self)@.clients.contains_key(self.stations@[j].client_id));
                    }
                }
            },
            None => {},
        }
    }

    /// The state of a client, if it is known.
    pub fn get(&self, client_id: u32) -> (r: Option<Client>)
        requires
            self.wf(),
        ensures
            r == (if self@.clients.contains_key(client_id) {
                Some(self@.clients[client_id])
            } else {
                None
            }),
    {
        match self.clients.get(&client_id) {
            Some(c) => Some(*c),
            None => None,
        }
    }

    /// Whether the client is known.
    pub fn contains_client(&self, client_id: u32) -> (r: bool)
        requires
            self.wf(),
        ensures
            r == self@.clients.contains_key(client_id),
    {
        self.get(client_id).is_some()
    }

    /// Whether a known client is enabled; fails for an unknown client.
    pub fn enabled(&self, client_id: u32) -> (r: Result<bool, PacketError>)
        requires
            self.wf(),
        ensures
            r == (if self@.clients.contains_key(client_id) {
                Ok::<bool, PacketError>(self@.clients[client_id].enabled)
            } else {
                Err(PacketError::UnknownClient)
            }),
    {
        match self.get(client_id) {
            Some(c) => Ok(c.enabled),
            None => Err(PacketError::UnknownClient),
        }
    }

    /// Whether a station has the source address.
    pub fn contains_station(&self, addr: &MacAddress) -> (r: bool)
        requires
            self.wf(),
        ensures
            r == station_of(self@.stations, *addr) is Some,
    {
        match self.station_index(addr) {
            Some(i) => {
                assert(self.stations@[i as int].addr == *addr);
                true
            },
            None => false,
        }
    }

    /// The station with the source address; fails when none has it.
    pub fn get_station(&self, addr: &MacAddress) -> (r: Result<Station, PacketError>)
        requires
            self.wf(),
        ensures
            r == (match station_of(self@.stations, *addr) {
                Some(s) => Ok::<Station, PacketError>(s),
                None => Err(PacketError::UnknownStation),
            }),
    {
        match self.station_index(addr) {
            Some(i) => {
                let ghost ss = self.stations@;
                assert(ss[i as int].addr == *addr);
                let ghost k = choose|k: int| 0 <= k < ss.len() && ss[k].addr == *addr;
                assert(k == i);
                Ok(self.stations[i])
            },
            None => Err(PacketError::UnknownStation),
        }
    }

    /// Counts a frame sent by a known client; fails for an unknown client.
    pub fn incr_tx(&mut self, client_id: u32) -> (r: Result<(), PacketError>)
        requires
            old(self).wf(),
        ensures
            final(self).wf(),
            final(self)@.stations == old(self)@.stations,
            final(self)@.clients == (if old(self)@.clients.contains_key(client_id) {
                old(self)@.clients.insert(client_id, changed(old(self)@.clients[client_id], 3))
            } else {
                old(self)@.clients
            }),
            final(self)@.hostapd_bssid == old(self)@.hostapd_bssid,
            final(self)@.ap_simulation == old(self)@.ap_simulation,
            r is Ok <==> old(self)@.clients.contains_key(client_id),
            r is Err ==> r == Err::<(), PacketError>(PacketError::UnknownClient),
    {
        let known = self.contains_client(client_id);
        self.update_client(client_id, 3);
        if known {
            Ok(())
        } else {
            Err(PacketError::UnknownClient)
        }
    }

    /// Counts a frame received by a known client; fails for an unknown client.
    pub fn incr_rx(&mut self, client_id: u32) -> (r: Result<(), PacketError>)
        requires
            old(self).wf(),
        ensures
            final(self).wf(),
            final(self)@.stations == old(self)@.stations,
            final(self)@.clients == (if old(self)@.clients.contains_key(client_id) {
                old(self)@.clients.insert(client_id, changed(old(self)@.clients[client_id], 4))
            } else {
                old(self)@.clients
            }),
            final(self)@.hostapd_bssid == old(self)@.hostapd_bssid,
            final(self)@.ap_simulation == old(self)@.ap_simulation,
            r is Ok <==> old(self)@.clients.contains_key(client_id),
            r is Err ==> r == Err::<(), PacketError>(PacketError::UnknownClient),
    {
        let known = self.contains_client(client_id);
        self.update_client(client_id, 4);
        if known {
            Ok(())
        } else {
            Err(PacketError::UnknownClient)
        }
    }
}

/// A client after a change: 0 resets it, 1 enables it, 2 disables it, 3
/// counts a frame sent, 4 counts a frame received (counts wrap at 2^32).
pub open spec fn changed(c: Client, change: u8) -> Client {
    if change == 0 {
        Client::new_spec()
    } else if change == 1 {
        Client { enabled: true, ..c }
    } else if change == 2 {
        Client { enabled: false, ..c }
    } else if change == 3 {
        Client { tx_count: (if c.tx_count == u32::MAX { 0 } else { (c.tx_count + 1) as u32 }), ..c }
    } else {
        Client { rx_count: (if c.rx_count == u32::MAX { 0 } else { (c.rx_count + 1) as u32 }), ..c }
    }
}


/// The 802.11 frame of a Frame command's attributes, decoded: its fields
/// and its body.
pub open spec fn frame_ieee(am: AttrSetModel) -> (FrameFields, Seq<u8>) {
    spec_parse_ieee80211(am.frame.unwrap()).unwrap()
}

/// The body of the 802.11 frame of a Frame command, decoded.
pub open spec fn frame_child(am: AttrSetModel) -> Option<ChildModel> {
    spec_parse_child(frame_ieee(am).0, frame_ieee(am).1)
}

/// Whether the medium rewrites the frame as sent by its access point: it
/// simulates one, and the frame goes to a station's access point whose
/// BSSID is the simulated one.
pub open spec fn rewritten_by_ap(ap_simulation: bool, bssid: MacAddress, am: AttrSetModel) -> bool {
    let c = frame_child(am).unwrap();
    ap_simulation && c.kind == DsKind::ToAp && c.bssid() == Some(bssid.0)
}

/// The 802.11 frame that the medium passes on: the frame rewritten as sent
/// by the access point, or the frame as it came.
pub open spec fn forwarded_frame(ap_simulation: bool, bssid: MacAddress, am: AttrSetModel) -> Seq<u8> {
    if rewritten_by_ap(ap_simulation, bssid, am) {
        let c = from_ap_child(frame_child(am).unwrap());
        ieee80211_bytes(c.fields, child_body_bytes(c))
    } else {
        am.frame.unwrap()
    }
}

/// The attribute if the value is present, else nothing.
pub open spec fn opt_attr<T>(v: Option<T>, f: spec_fn(T) -> AttrValue) -> Seq<AttrValue> {
    match v {
        Some(x) => seq![f(x)],
        None => Seq::empty(),
    }
}

/// The attributes of a frame passed on to the station with hwsim address
/// `dest`: the receiver, the frame, the receive rate and signal (or their
/// defaults), then the flags, frequency, rates and rate flags that came.
pub open spec fn forwarded_attr_list(ap_simulation: bool, bssid: MacAddress, am: AttrSetModel, dest: u64) -> Seq<AttrValue> {
    seq![
        AttrValue::Receiver(le48(le48_bytes(dest))),
        AttrValue::Frame(forwarded_frame(ap_simulation, bssid, am)),
        AttrValue::RxRate(
            match am.rx_rate_idx {
                Some(v) => v,
                None => RX_RATE,
            },
        ),
        AttrValue::Signal(
            match am.signal {
                Some(v) => v,
                None => SIGNAL,
            },
        ),
    ] + opt_attr(am.flags, |v: u32| AttrValue::Flags(v)) + opt_attr(am.freq, |v: u32| AttrValue::Freq(v))
        + opt_attr(am.tx_info, |v| AttrValue::TxInfo(v)) + opt_attr(
        am.tx_info_flags,
        |v| AttrValue::TxInfoFlags(v),
    )
}

/// The bytes of the attributes of a frame passed on to `dest`.
pub open spec fn forwarded_attrs(ap_simulation: bool, bssid: MacAddress, am: AttrSetModel, dest: u64) -> Seq<u8> {
    attr_set_of(forwarded_attr_list(ap_simulation, bssid, am, dest)).attributes
}

/// The netlink length of a passed-on message stays within 32 bits.
pub open spec fn forward_len_fits(
    ap_simulation: bool,
    bssid: MacAddress,
    am: AttrSetModel,
    msg: (NlMsgHdr, HwsimMsgHdr, Seq<u8>),
    dest: u64,
) -> bool {
    let n = forwarded_attrs(ap_simulation, bssid, am, dest).len();
    &&& n < 0x1_0000_0000
    &&& msg.2.len() < 0x1_0000_0000
    &&& msg.0.nlmsg_len + n <= u32::MAX
    &&& msg.0.nlmsg_len + n >= msg.2.len()
}

/// The message that passes a frame on to `dest`: the received message's
/// netlink length adjusted to the new attributes, the minimum netlink type,
/// its flags, zero sequence and port; its hwsim header.
pub open spec fn forwarded_msg(
    ap_simulation: bool,
    bssid: MacAddress,
    am: AttrSetModel,
    msg: (NlMsgHdr, HwsimMsgHdr, Seq<u8>),
    dest: u64,
) -> (NlMsgHdr, HwsimMsgHdr, Seq<u8>) {
    let n = forwarded_attrs(ap_simulation, bssid, am, dest);
    (
        NlMsgHdr {
            nlmsg_len: (msg.0.nlmsg_len + n.len() - msg.2.len()) as u32,
            nlmsg_type: NLMSG_MIN_TYPE,
            nlmsg_flags: msg.0.nlmsg_flags,
            nlmsg_seq: 0,
            nlmsg_pid: 0,
        },
        msg.1,
        n,
    )
}

impl Medium {
    /// The 802.11 frame passed on.
    fn forwarded_frame_bytes(&self, frame: &Frame, Ghost(am): Ghost<AttrSetModel>, Ghost(msg): Ghost<(NlMsgHdr, HwsimMsgHdr, Seq<u8>)>) -> (r: Result<Vec<u8>, PacketError>)
        requires
            frame.holds(am, msg),
            frame_child(am) is Some,
        ensures
            r matches Ok(v) && v@ == forwarded_frame(self.ap_simulation, self.hostapd_bssid, am)
                && v@.len() == am.frame.unwrap().len(),
    {
        let ghost c = frame_child(am).unwrap();
        proof {
            lemma_ieee80211_bytes_roundtrip(am.frame.unwrap());
            lemma_child_bytes_roundtrip(frame_ieee(am).0, frame_ieee(am).1);
        }
        let to_hostapd = self.ap_simulation && frame.ieee80211.is_to_ap() && match frame.ieee80211.get_bssid() {
            Some(b) => b.0 == self.hostapd_bssid.0,
            None => false,
        };
        assert(to_hostapd == rewritten_by_ap(self.ap_simulation, self.hostapd_bssid, am));
        let bytes: Vec<u8> = if to_hostapd {
            match frame.ieee80211.into_from_ap() {
                Ok(f) => {
                    assert(f@ == from_ap_child(c));
                    match f.encode_to_vec() {
                        Ok(v) => v,
                        Err(e) => return Err(e),
                    }
                },
                Err(e) => return Err(e),
            }
        } else {
            match &frame.attrs.frame {
                Some(d) => crate::wire::clone_bytes(d),
                None => return Err(PacketError::MissingAttribute),
            }
        };
        Ok(bytes)
    }

    /// The attributes of the frame passed on to the station with hwsim
    /// address `dest_hwsim_addr`.
    #[verifier::spinoff_prover]
    #[verifier::rlimit(40)]
    fn create_hwsim_attr(&self, frame: &Frame, dest_hwsim_addr: &MacAddress, Ghost(am): Ghost<AttrSetModel>, Ghost(msg): Ghost<(NlMsgHdr, HwsimMsgHdr, Seq<u8>)>) -> (r: Result<Vec<u8>, PacketError>)
        requires
            frame.holds(am, msg),
            frame_child(am) is Some,
            set_fits(am),
        ensures
            r matches Ok(v) && v@ == forwarded_attrs(self.ap_simulation, self.hostapd_bssid, am, dest_hwsim_addr.0),
    {
        let bytes = match self.forwarded_frame_bytes(frame, Ghost(am), Ghost(msg)) {
            Ok(b) => b,
            Err(e) => return Err(e),
        };
        let attrs = &frame.attrs;
        let mut builder = HwsimAttrSet::builder();
        let ghost l0 = Seq::<AttrValue>::empty();
        let rv = dest_hwsim_addr.to_vec();
        builder.receiver(&rv);
        let ghost a0 = AttrValue::Receiver(le48(rv@));
        proof { lemma_attr_set_push(l0, a0); }
        builder.frame(bytes.as_slice());
        let ghost a1 = AttrValue::Frame(bytes@);
        proof { lemma_attr_set_push(l0.push(a0), a1); }
        let rx = match attrs.rx_rate_idx {
            Some(v) => v,
            None => RX_RATE,
        };
        builder.rx_rate(rx);
        let ghost a2 = AttrValue::RxRate(rx);
        proof { lemma_attr_set_push(l0.push(a0).push(a1), a2); }
        let sg = match attrs.signal {
            Some(v) => v,
            None => SIGNAL,
        };
        builder.signal(sg);
        let ghost a3 = AttrValue::Signal(sg);
        proof { lemma_attr_set_push(l0.push(a0).push(a1).push(a2), a3); }
        let ghost mut l = l0.push(a0).push(a1).push(a2).push(a3);
        assert(l =~= seq![a0, a1, a2, a3]);
        assert(builder@ == attr_set_of(l));
        match attrs.flags {
            Some(v) => {
                builder.flags(v);
                proof { lemma_attr_set_push(l, AttrValue::Flags(v)); l = l.push(AttrValue::Flags(v)); }
            },
            None => {},
        }
        assert(l =~= seq![a0, a1, a2, a3] + opt_attr(am.flags, |v: u32| AttrValue::Flags(v)));
        let ghost l1 = l;
        match attrs.freq {
            Some(v) => {
                builder.freq(v);
                proof { lemma_attr_set_push(l, AttrValue::Freq(v)); l = l.push(AttrValue::Freq(v)); }
            },
            None => {},
        }
        assert(l =~= l1 + opt_attr(am.freq, |v: u32| AttrValue::Freq(v)));
        let ghost l2 = l;
        match &attrs.tx_info {
            Some(v) => {
                builder.tx_info(v.as_slice());
                proof { lemma_attr_set_push(l, AttrValue::TxInfo(v@)); l = l.push(AttrValue::TxInfo(v@)); }
            },
            None => {},
        }
        assert(l =~= l2 + opt_attr(am.tx_info, |v| AttrValue::TxInfo(v)));
        let ghost l3 = l;
        match &attrs.tx_info_flags {
            Some(v) => {
                builder.tx_info_flags(v.as_slice());
                proof { lemma_attr_set_push(l, AttrValue::TxInfoFlags(v@)); l = l.push(AttrValue::TxInfoFlags(v@)); }
            },
            None => {},
        }
        assert(l =~= l3 + opt_attr(am.tx_info_flags, |v| AttrValue::TxInfoFlags(v)));
        assert(l =~= forwarded_attr_list(self.ap_simulation, self.hostapd_bssid, am, dest_hwsim_addr.0));
        match builder.build() {
            Ok(set) => Ok(set.attributes),
            Err(e) => Err(e),
        }
    }
}

/// A packet that the medium hands to a client.
#[derive(Debug)]
pub struct Delivery {
    pub client_id: u32,
    pub packet: Vec<u8>,
}

/// The clients and packets of a list of deliveries.
pub open spec fn delivered(v: Seq<Delivery>) -> Seq<(u32, Seq<u8>)> {
    v.map_values(|d: Delivery| (d.client_id, d.packet@))
}

proof fn lemma_delivered_push(v: Seq<Delivery>, d: Delivery)
    ensures
        delivered(v.push(d)) == delivered(v) + seq![(d.client_id, d.packet@)],
{
    assert(delivered(v.push(d)) =~= delivered(v) + seq![(d.client_id, d.packet@)]);
}

/// The medium with a change applied to a client (see `changed`).
pub open spec fn with_change(m: MediumModel, client_id: u32, change: u8) -> MediumModel {
    MediumModel { clients: m.clients.insert(client_id, changed(m.clients[client_id], change)), ..m }
}

/// Every station belongs to a known client.
pub open spec fn stations_known(m: MediumModel) -> bool {
    forall|i: int| 0 <= i < m.stations.len() ==> m.clients.contains_key(#[trigger] m.stations[i].client_id)
}

/// Sending a frame from one station to another through the medium: when
/// both clients are enabled, the source counts a frame sent, the
/// destination a frame received, and the destination's client gets the
/// frame passed on to the destination's hwsim address.
pub open spec fn sta_send(
    m: MediumModel,
    src: Station,
    d: Station,
    am: AttrSetModel,
    msg: (NlMsgHdr, HwsimMsgHdr, Seq<u8>),
) -> (MediumModel, Seq<(u32, Seq<u8>)>) {
    if m.clients[src.client_id].enabled && m.clients[d.client_id].enabled {
        (
            with_change(with_change(m, src.client_id, 3), d.client_id, 4),
            seq![
                (
                    d.client_id,
                    hwsim_msg_bytes(
                        forwarded_msg(m.ap_simulation, m.hostapd_bssid, am, msg, d.hwsim_addr.0),
                    ),
                ),
            ],
        )
    } else {
        (m, Seq::empty())
    }
}

/// Sending a frame from a station to each station of `ss`, in order, but
/// the one with the source's address.
pub open spec fn broadcast(
    m: MediumModel,
    src: Station,
    ss: Seq<Station>,
    am: AttrSetModel,
    msg: (NlMsgHdr, HwsimMsgHdr, Seq<u8>),
) -> (MediumModel, Seq<(u32, Seq<u8>)>)
    decreases ss.len(),
{
    if ss.len() == 0 {
        (m, Seq::empty())
    } else {
        let (m1, o1) = broadcast(m, src, ss.drop_last(), am, msg);
        let d = ss.last();
        if src.addr != d.addr {
            let (m2, o2) = sta_send(m1, src, d, am, msg);
            (m2, o1 + o2)
        } else {
            (m1, o1)
        }
    }
}

/// The TxInfoFrame message that acknowledges a Frame message (see `build_tx_info`).
pub open spec fn tx_info_msg(am: AttrSetModel, msg: (NlMsgHdr, HwsimMsgHdr, Seq<u8>)) -> (NlMsgHdr, HwsimMsgHdr, Seq<u8>) {
    let n = tx_info_attrs(am).attributes;
    (
        NlMsgHdr {
            nlmsg_len: (msg.0.nlmsg_len + n.len() - (am.attributes.len() as u32)) as u32,
            nlmsg_type: NLMSG_MIN_TYPE,
            nlmsg_flags: msg.0.nlmsg_flags,
            nlmsg_seq: 0,
            nlmsg_pid: 0,
        },
        HwsimMsgHdr { hwsim_cmd: HwsimCmd::TxInfoFrame, hwsim_version: 0, reserved: msg.1.reserved },
        n,
    )
}

/// Queueing a frame from the source station: to a known destination
/// station, acknowledge to the source and send to the destination (the
/// result is true); to a multicast address, acknowledge, send to every
/// other station, and count a frame sent; otherwise (for the outside
/// world) count a frame sent.
pub open spec fn queue(
    m: MediumModel,
    src: Station,
    am: AttrSetModel,
    msg: (NlMsgHdr, HwsimMsgHdr, Seq<u8>),
) -> (MediumModel, Seq<(u32, Seq<u8>)>, bool) {
    let c = frame_child(am).unwrap();
    let dst = MacAddress(c.destination());
    let ack = (src.client_id, hwsim_msg_bytes(tx_info_msg(am, msg)));
    match station_of(m.stations, dst) {
        Some(d) => {
            let (m2, o2) = sta_send(m, src, d, am, msg);
            (m2, seq![ack] + o2, true)
        },
        None => if dst.octets()[0] & 1u8 == 1u8 {
            let (m2, o2) = broadcast(m, src, m.stations, am, msg);
            (with_change(m2, src.client_id, 3), seq![ack] + o2, false)
        } else {
            (with_change(m, src.client_id, 3), Seq::empty(), false)
        },
    }
}

/// Processing a packet from a client: a Frame command whose attributes and
/// frame decode, and that carries a transmitter, flags, rates and a cookie,
/// registers the client and the frame's source station (with the
/// transmitter as hwsim address) when they are new, then queues the frame
/// from that station. Anything else changes nothing.
pub open spec fn process_spec(m: MediumModel, client_id: u32, packet: Seq<u8>) -> (MediumModel, Seq<(u32, Seq<u8>)>, bool) {
    match spec_parse_hwsim_msg(packet) {
        Err(_) => (m, Seq::empty(), false),
        Ok(msg) => if msg.1.hwsim_cmd != HwsimCmd::Frame {
            (m, Seq::empty(), false)
        } else {
            match spec_frame_attrs(msg.2) {
                Err(_) => (m, Seq::empty(), false),
                Ok(am) => if !acknowledgeable(am) {
                    (m, Seq::empty(), false)
                } else {
                    let src_addr = MacAddress(frame_child(am).unwrap().source());
                    let m1 = MediumModel {
                        clients: if m.clients.contains_key(client_id) {
                            m.clients
                        } else {
                            m.clients.insert(client_id, Client::new_spec())
                        },
                        ..m
                    };
                    let m2 = MediumModel {
                        stations: if station_of(m1.stations, src_addr) is Some {
                            m1.stations
                        } else {
                            m1.stations.push(
                                Station {
                                    client_id,
                                    addr: src_addr,
                                    hwsim_addr: MacAddress(am.transmitter.unwrap()),
                                },
                            )
                        },
                        ..m1
                    };
                    queue(m2, station_of(m2.stations, src_addr).unwrap(), am, msg)
                },
            }
        },
    }
}

/// The packet can be processed without a panic: its attributes can be
/// walked, and for a Frame command that decodes, the frame's body has its
/// addresses and the netlink lengths of the messages built stay in 32 bits.
pub open spec fn processable(m: MediumModel, packet: Seq<u8>) -> bool {
    &&& hwsim_cmd_walkable(packet)
    &&& match spec_parse_hwsim_msg(packet) {
        Ok(msg) => msg.1.hwsim_cmd == HwsimCmd::Frame ==> match spec_frame_attrs(msg.2) {
            Ok(am) => acknowledgeable(am) ==> {
                &&& frame_child(am) is Some
                &&& tx_info_len_fits(msg.0, am)
                &&& forall|d: u64| #[trigger] forward_len_fits(m.ap_simulation, m.hostapd_bssid, am, msg, d)
            },
            Err(_) => true,
        },
        Err(_) => true,
    }
}

proof fn lemma_station_of_at(ss: Seq<Station>, i: int)
    requires
        distinct_stations(ss),
        0 <= i < ss.len(),
    ensures
        station_of(ss, ss[i].addr) == Some(ss[i]),
{
    let k = choose|k: int| 0 <= k < ss.len() && ss[k].addr == ss[i].addr;
    assert(0 <= i < ss.len() && ss[i].addr == ss[i].addr);
    assert(k == i);
}

proof fn lemma_station_push(ss: Seq<Station>, s: Station)
    requires
        distinct_stations(ss),
        station_of(ss, s.addr) is None,
    ensures
        distinct_stations(ss.push(s)),
        station_of(ss.push(s), s.addr) == Some(s),
{
    assert forall|i: int| 0 <= i < ss.len() implies ss[i].addr != s.addr by {
        if ss[i].addr == s.addr {
            assert(exists|k: int| 0 <= k < ss.len() && ss[k].addr == s.addr);
        }
    }
    let s2 = ss.push(s);
    assert(distinct_stations(s2)) by {
        assert forall|i: int, j: int| 0 <= i < s2.len() && 0 <= j < s2.len() && i != j implies s2[i].addr != s2[j].addr by {
            if i < ss.len() && j < ss.len() {
                assert(s2[i] == ss[i] && s2[j] == ss[j]);
            }
        }
    }
    lemma_station_of_at(s2, ss.len() as int);
}

impl Medium {
    /// The message that passes the frame on to `dest_hwsim_addr`; `None`
    /// when the frame cannot be rewritten.
    fn create_hwsim_msg(&self, frame: &Frame, dest_hwsim_addr: &MacAddress, Ghost(am): Ghost<AttrSetModel>, Ghost(msg): Ghost<(NlMsgHdr, HwsimMsgHdr, Seq<u8>)>) -> (r: Option<HwsimMsg>)
        requires
            frame.holds(am, msg),
            frame_child(am) is Some,
            set_fits(am),
            forward_len_fits(self.ap_simulation, self.hostapd_bssid, am, msg, dest_hwsim_addr.0),
        ensures
            r matches Some(m) && m@ == forwarded_msg(self.ap_simulation, self.hostapd_bssid, am, msg, dest_hwsim_addr.0),
    {
        let hwsim_msg = &frame.hwsim_msg;
        let attributes = match self.create_hwsim_attr(frame, dest_hwsim_addr, Ghost(am), Ghost(msg)) {
            Ok(a) => a,
            Err(_) => return None,
        };
        let nlmsg_len = hwsim_msg.get_nl_hdr().nlmsg_len + attributes.len() as u32 - hwsim_msg.get_attributes().len() as u32;
        Some(
            HwsimMsg {
                nl_hdr: NlMsgHdr {
                    nlmsg_len,
                    nlmsg_type: NLMSG_MIN_TYPE,
                    nlmsg_flags: hwsim_msg.get_nl_hdr().nlmsg_flags,
                    nlmsg_seq: 0,
                    nlmsg_pid: 0,
                },
                hwsim_hdr: hwsim_msg.hwsim_hdr,
                attributes,
            },
        )
    }

    /// Sends a frame from one station to another (see `sta_send`).
    fn send_from_sta_frame(&mut self, frame: &Frame, source: &Station, destination: &Station, out: &mut Vec<Delivery>, Ghost(am): Ghost<AttrSetModel>, Ghost(msg): Ghost<(NlMsgHdr, HwsimMsgHdr, Seq<u8>)>) -> (r: Result<(), PacketError>)
        requires
            old(self).wf(),
            frame.holds(am, msg),
            frame_child(am) is Some,
            set_fits(am),
            forward_len_fits(old(self)@.ap_simulation, old(self)@.hostapd_bssid, am, msg, destination.hwsim_addr.0),
            old(self)@.clients.contains_key(source.client_id),
            old(self)@.clients.contains_key(destination.client_id),
        ensures
            final(self).wf(),
            r is Ok,
            final(self)@.stations == old(self)@.stations,
            final(self)@.clients == sta_send(old(self)@, *source, *destination, am, msg).0.clients,
            final(self)@.ap_simulation == old(self)@.ap_simulation,
            final(self)@.hostapd_bssid == old(self)@.hostapd_bssid,
            delivered(final(out)@) == delivered(old(out)@) + sta_send(old(self)@, *source, *destination, am, msg).1,
    {
        let ghost m0 = self@;
        let e1 = match self.enabled(source.client_id) {
            Ok(b) => b,
            Err(e) => return Err(e),
        };
        let e2 = match self.enabled(destination.client_id) {
            Ok(b) => b,
            Err(e) => return Err(e),
        };
        if e1 && e2 {
            match self.create_hwsim_msg(frame, &destination.hwsim_addr, Ghost(am), Ghost(msg)) {
                Some(packet) => {
                    match self.incr_tx(source.client_id) {
                        Ok(()) => {},
                        Err(e) => return Err(e),
                    }
                    match self.incr_rx(destination.client_id) {
                        Ok(()) => {},
                        Err(e) => return Err(e),
                    }
                    let d = Delivery { client_id: destination.client_id, packet: packet.encode_to_vec() };
                    proof {
                        lemma_delivered_push(out@, d);
                    }
                    out.push(d);
                },
                None => {
                    assert(false);
                },
            }
        } else {
            assert(delivered(out@) =~= delivered(out@) + Seq::<(u32, Seq<u8>)>::empty());
        }
        Ok(())
    }
}
impl Medium {
    /// Sends a frame from the source station to every other station, in the
    /// order in which the stations were first seen (see `broadcast`).
    fn broadcast_from_sta_frame(&mut self, frame: &Frame, source: &Station, out: &mut Vec<Delivery>, Ghost(am): Ghost<AttrSetModel>, Ghost(msg): Ghost<(NlMsgHdr, HwsimMsgHdr, Seq<u8>)>) -> (r: Result<(), PacketError>)
        requires
            old(self).wf(),
            frame.holds(am, msg),
            frame_child(am) is Some,
            set_fits(am),
            forall|d: u64| #[trigger] forward_len_fits(old(self)@.ap_simulation, old(self)@.hostapd_bssid, am, msg, d),
            old(self)@.clients.contains_key(source.client_id),
        ensures
            final(self).wf(),
            r is Ok,
            final(self)@ == broadcast(old(self)@, *source, old(self)@.stations, am, msg).0,
            final(self)@.clients.dom() == old(self)@.clients.dom(),
            delivered(final(out)@) == delivered(old(out)@) + broadcast(old(self)@, *source, old(self)@.stations, am, msg).1,
    {
        let ghost m0 = self@;
        let ghost out0 = out@;
        let mut i: usize = 0;
        while i < self.stations.len()
            invariant
                self.wf(),
                i <= m0.stations.len(),
                self@ == broadcast(m0, *source, m0.stations.take(i as int), am, msg).0,
                delivered(out@) == delivered(out0) + broadcast(m0, *source, m0.stations.take(i as int), am, msg).1,
                self@.stations == m0.stations,
                self@.ap_simulation == m0.ap_simulation,
                self@.hostapd_bssid == m0.hostapd_bssid,
                self@.clients.dom() == m0.clients.dom(),
                frame.holds(am, msg),
                frame_child(am) is Some,
                set_fits(am),
                forall|d: u64| #[trigger] forward_len_fits(m0.ap_simulation, m0.hostapd_bssid, am, msg, d),
                m0.clients.contains_key(source.client_id),
            decreases m0.stations.len() - i,
        {
            let destination = self.stations[i];
            let ghost before = self@;
            let ghost before_out = out@;
            proof {
                assert(m0.stations.take(i + 1).drop_last() =~= m0.stations.take(i as int));
                assert(m0.stations.take(i + 1).last() == destination);
                assert(self@.clients.contains_key(self@.stations[i as int].client_id));
                assert(forward_len_fits(m0.ap_simulation, m0.hostapd_bssid, am, msg, destination.hwsim_addr.0));
            }
            if source.addr != destination.addr {
                match self.send_from_sta_frame(frame, source, &destination, out, Ghost(am), Ghost(msg)) {
                    Ok(()) => {},
                    Err(e) => return Err(e),
                }
                proof {
                    assert(self@.clients.dom() =~= m0.clients.dom());
                    assert(self@ == sta_send(before, *source, destination, am, msg).0);
                }
            }
            i = i + 1;
        }
        proof {
            assert(m0.stations.take(m0.stations.len() as int) =~= m0.stations);
        }
        Ok(())
    }
}

proof fn lemma_station_of_known(m: MediumModel, addr: MacAddress)
    requires
        medium_wf(m),
        station_of(m.stations, addr) is Some,
    ensures
        m.clients.contains_key(station_of(m.stations, addr).unwrap().client_id),
        station_of(m.stations, addr).unwrap().addr == addr,
{
    let i = choose|i: int| 0 <= i < m.stations.len() && m.stations[i].addr == addr;
    assert(m.clients.contains_key(m.stations[i].client_id));
}

impl Medium {
    /// Acknowledges a frame to the client of its source station with a
    /// TxInfoFrame message (see `build_tx_info`); fails when no station has
    /// the frame's source address.
    fn send_tx_info_frame(&self, frame: &Frame, out: &mut Vec<Delivery>, Ghost(am): Ghost<AttrSetModel>, Ghost(msg): Ghost<(NlMsgHdr, HwsimMsgHdr, Seq<u8>)>) -> (r: Result<(), PacketError>)
        requires
            self.wf(),
            frame.holds(am, msg),
            spec_frame_attrs(msg.2) == Ok::<AttrSetModel, PacketError>(am),
            acknowledgeable(am),
            !(parse_attrs(msg.2).1 is Panics),
            frame_child(am) is Some,
            tx_info_len_fits(msg.0, am),
        ensures
            match station_of(self@.stations, MacAddress(frame_child(am).unwrap().source())) {
                Some(s) => r is Ok && delivered(final(out)@) == delivered(old(out)@) + seq![(s.client_id, hwsim_msg_bytes(tx_info_msg(am, msg)))],
                None => r == Err::<(), PacketError>(PacketError::UnknownStation) && final(out)@ == old(out)@,
            },
    {
        let src = frame.ieee80211.get_source();
        let station = match self.get_station(&src) {
            Ok(s) => s,
            Err(e) => return Err(e),
        };
        let tx = match build_tx_info(&frame.hwsim_msg) {
            Ok(m) => m,
            Err(e) => {
                assert(false);
                return Err(e);
            },
        };
        let d = Delivery { client_id: station.client_id, packet: tx.encode_to_vec() };
        proof {
            lemma_delivered_push(out@, d);
        }
        out.push(d);
        Ok(())
    }

    /// Queues a frame from its source station (see `queue`).
    fn queue_frame(&mut self, frame: &Frame, source: &Station, out: &mut Vec<Delivery>, Ghost(am): Ghost<AttrSetModel>, Ghost(msg): Ghost<(NlMsgHdr, HwsimMsgHdr, Seq<u8>)>) -> (r: Result<bool, PacketError>)
        requires
            old(self).wf(),
            frame.holds(am, msg),
            spec_frame_attrs(msg.2) == Ok::<AttrSetModel, PacketError>(am),
            acknowledgeable(am),
            !(parse_attrs(msg.2).1 is Panics),
            frame_child(am) is Some,
            set_fits(am),
            tx_info_len_fits(msg.0, am),
            forall|d: u64| #[trigger] forward_len_fits(old(self)@.ap_simulation, old(self)@.hostapd_bssid, am, msg, d),
            station_of(old(self)@.stations, MacAddress(frame_child(am).unwrap().source())) == Some(*source),
        ensures
            final(self).wf(),
            r == Ok::<bool, PacketError>(queue(old(self)@, *source, am, msg).2),
            final(self)@ == queue(old(self)@, *source, am, msg).0,
            delivered(final(out)@) == delivered(old(out)@) + queue(old(self)@, *source, am, msg).1,
    {
        let ghost m0 = self@;
        let ghost out0 = out@;
        let ghost ack = (source.client_id, hwsim_msg_bytes(tx_info_msg(am, msg)));
        proof {
            lemma_station_of_known(m0, MacAddress(frame_child(am).unwrap().source()));
        }
        let dest_addr = frame.ieee80211.get_destination();
        if self.contains_station(&dest_addr) {
            match self.send_tx_info_frame(frame, out, Ghost(am), Ghost(msg)) {
                Ok(()) => {},
                Err(e) => return Err(e),
            }
            let destination = match self.get_station(&dest_addr) {
                Ok(s) => s,
                Err(e) => return Err(e),
            };
            proof {
                lemma_station_of_known(m0, dest_addr);
            }
            let ghost out1 = out@;
            match self.send_from_sta_frame(frame, source, &destination, out, Ghost(am), Ghost(msg)) {
                Ok(()) => {},
                Err(e) => return Err(e),
            }
            proof {
                let o2 = sta_send(m0, *source, destination, am, msg).1;
                assert(delivered(out@) =~= delivered(out0) + (seq![ack] + o2));
            }
            Ok(true)
        } else if dest_addr.is_multicast() {
            match self.send_tx_info_frame(frame, out, Ghost(am), Ghost(msg)) {
                Ok(()) => {},
                Err(e) => return Err(e),
            }
            match self.broadcast_from_sta_frame(frame, source, out, Ghost(am), Ghost(msg)) {
                Ok(()) => {},
                Err(e) => return Err(e),
            }
            let ghost m2 = self@;
            match self.incr_tx(source.client_id) {
                Ok(()) => {},
                Err(e) => return Err(e),
            }
            proof {
                let o2 = broadcast(m0, *source, m0.stations, am, msg).1;
                assert(delivered(out@) =~= delivered(out0) + (seq![ack] + o2));
                assert(self@ == with_change(m2, source.client_id, 3));
            }
            Ok(false)
        } else {
            match self.incr_tx(source.client_id) {
                Ok(()) => {},
                Err(e) => return Err(e),
            }
            proof {
                assert(delivered(out@) =~= delivered(out0) + Seq::<(u32, Seq<u8>)>::empty());
                assert(self@ == with_change(m0, source.client_id, 3));
            }
            Ok(false)
        }
    }
}

impl Medium {
    /// Processes a packet that a client's mac80211_hwsim sent (see
    /// `process_spec`): for a Frame command, the frame's source station is
    /// registered when it is new (so that a randomized address of a station
    /// that probes is bound to it), and the frame is delivered between
    /// stations, re-broadcast when multicast, and acknowledged. The packets
    /// for clients are appended to `out`; the result tells whether the frame
    /// went to a known station.
    pub fn process(&mut self, client_id: u32, packet: &[u8], out: &mut Vec<Delivery>) -> (r: bool)
        requires
            old(self).wf(),
            processable(old(self)@, packet@),
        ensures
            final(self).wf(),
            r == process_spec(old(self)@, client_id, packet@).2,
            final(self)@ == process_spec(old(self)@, client_id, packet@).0,
            delivered(final(out)@) == delivered(old(out)@) + process_spec(old(self)@, client_id, packet@).1,
    {
        let ghost m0 = self@;
        proof {
            assert(delivered(out@) =~= delivered(out@) + Seq::<(u32, Seq<u8>)>::empty());
        }
        let hwsim_msg = match HwsimMsg::parse(packet) {
            Ok(m) => m,
            Err(_) => return false,
        };
        match hwsim_msg.hwsim_hdr.hwsim_cmd {
            HwsimCmd::Frame => {},
            _ => return false,
        }
        let frame = match Frame::parse(&hwsim_msg) {
            Ok(f) => f,
            Err(_) => return false,
        };
        let ghost am = frame.attrs@;
        let ghost msg = hwsim_msg@;
        proof {
            lemma_parsed_set_fits(msg.2);
        }
        let transmitter = match frame.transmitter {
            Some(t) => t,
            None => return false,
        };
        if frame.flags.is_none() || frame.cookie.is_none() || frame.tx_info.is_none() {
            return false;
        }
        let src_addr = frame.ieee80211.get_source();
        if !self.contains_client(client_id) {
            self.add(client_id);
        }
        let ghost m1 = self@;
        let source = match self.station_index(&src_addr) {
            Some(i) => {
                proof {
                    lemma_station_of_at(self.stations@, i as int);
                }
                self.stations[i]
            },
            None => {
                let s = Station::new(client_id, src_addr, transmitter);
                proof {
                    lemma_station_push(self.stations@, s);
                }
                self.stations.push(s);
                proof {
                    assert forall|j: int| 0 <= j < self.stations@.len() implies self@.clients.contains_key(
                        #[trigger] self.stations@[j].client_id,
                    ) by {
                        if j < m1.stations.len() {
                            assert(self.stations@[j] == m1.stations[j]);
                        }
                    }
                }
                s
            },
        };
        proof {
            assert(forall|d: u64| #[trigger] forward_len_fits(self@.ap_simulation, self@.hostapd_bssid, am, msg, d) ==
                forward_len_fits(m0.ap_simulation, m0.hostapd_bssid, am, msg, d));
        }
        match self.queue_frame(&frame, &source, out, Ghost(am), Ghost(msg)) {
            Ok(b) => b,
            Err(_) => {
                assert(false);
                false
            },
        }
    }
}

/// The packets that a frame from the access point with receiver address
/// `rcv` brings to each station of `ss`, in order: the packet as it came to
/// the station with that hwsim address, and to any other the frame passed
/// on to its own hwsim address. Each destination counts a frame received.
pub open spec fn ds_all(
    m: MediumModel,
    ss: Seq<Station>,
    rcv: u64,
    am: AttrSetModel,
    msg: (NlMsgHdr, HwsimMsgHdr, Seq<u8>),
    packet: Seq<u8>,
) -> (MediumModel, Seq<(u32, Seq<u8>)>)
    decreases ss.len(),
{
    if ss.len() == 0 {
        (m, Seq::empty())
    } else {
        let (m1, o1) = ds_all(m, ss.drop_last(), rcv, am, msg, packet);
        let d = ss.last();
        let p = if rcv == d.hwsim_addr.0 {
            packet
        } else {
            hwsim_msg_bytes(forwarded_msg(m.ap_simulation, m.hostapd_bssid, am, msg, d.hwsim_addr.0))
        };
        (with_change(m1, d.client_id, 4), o1 + seq![(d.client_id, p)])
    }
}

/// The stations that a frame from the access point goes to: the station
/// with its destination address, else every station for a multicast
/// destination, else none.
pub open spec fn ds_targets(m: MediumModel, am: AttrSetModel) -> Seq<Station> {
    let dst = MacAddress(frame_child(am).unwrap().destination());
    match station_of(m.stations, dst) {
        Some(d) => seq![d],
        None => if dst.octets()[0] & 1u8 == 1u8 {
            m.stations
        } else {
            Seq::empty()
        },
    }
}

/// The packet that a frame from the access point with receiver address
/// `rcv` brings to station `st`: the packet as it came where the station's
/// hwsim address is the receiver, else the frame passed on to the
/// station's hwsim address.
pub open spec fn packet_for_station(
    m: MediumModel,
    st: Station,
    rcv: u64,
    am: AttrSetModel,
    msg: (NlMsgHdr, HwsimMsgHdr, Seq<u8>),
    packet: Seq<u8>,
) -> Seq<u8> {
    if rcv == st.hwsim_addr.0 {
        packet
    } else {
        hwsim_msg_bytes(forwarded_msg(m.ap_simulation, m.hostapd_bssid, am, msg, st.hwsim_addr.0))
    }
}

/// Delivering to the stations `ss` gives one delivery per station, in
/// order, to its client.
proof fn lemma_ds_all_deliveries(
    m: MediumModel,
    ss: Seq<Station>,
    rcv: u64,
    am: AttrSetModel,
    msg: (NlMsgHdr, HwsimMsgHdr, Seq<u8>),
    packet: Seq<u8>,
)
    ensures
        ds_all(m, ss, rcv, am, msg, packet).1.len() == ss.len(),
        forall|i: int|
            0 <= i < ss.len() ==> #[trigger] ds_all(m, ss, rcv, am, msg, packet).1[i] == (
                ss[i].client_id,
                packet_for_station(m, ss[i], rcv, am, msg, packet),
            ),
    decreases ss.len(),
{
    if ss.len() > 0 {
        lemma_ds_all_deliveries(m, ss.drop_last(), rcv, am, msg, packet);
        let o1 = ds_all(m, ss.drop_last(), rcv, am, msg, packet).1;
        let o = ds_all(m, ss, rcv, am, msg, packet).1;
        assert forall|i: int| 0 <= i < ss.len() implies #[trigger] o[i] == (
            ss[i].client_id,
            packet_for_station(m, ss[i], rcv, am, msg, packet),
        ) by {
            if i < ss.len() - 1 {
                assert(o[i] == o1[i]);
                assert(ss.drop_last()[i] == ss[i]);
            }
        }
    }
}

/// The number of stations of `ss` that belong to client `c`.
pub open spec fn stations_of_client(ss: Seq<Station>, c: u32) -> nat {
    ss.filter(|s: Station| s.client_id == c).len()
}

/// Delivering to the stations `ss` counts, for each known client, one
/// frame received per station of it among `ss` (wrapping at 32 bits), and
/// changes nothing else.
proof fn lemma_ds_all_counts(
    m: MediumModel,
    ss: Seq<Station>,
    rcv: u64,
    am: AttrSetModel,
    msg: (NlMsgHdr, HwsimMsgHdr, Seq<u8>),
    packet: Seq<u8>,
)
    requires
        forall|i: int| 0 <= i < ss.len() ==> m.clients.contains_key(#[trigger] ss[i].client_id),
    ensures
        ({
            let m2 = ds_all(m, ss, rcv, am, msg, packet).0;
            &&& m2.stations == m.stations
            &&& m2.hostapd_bssid == m.hostapd_bssid
            &&& m2.ap_simulation == m.ap_simulation
            &&& m2.clients.dom() == m.clients.dom()
            &&& forall|c: u32| #[trigger] m.clients.contains_key(c) ==> {
                &&& m2.clients[c].enabled == m.clients[c].enabled
                &&& m2.clients[c].tx_count == m.clients[c].tx_count
                &&& m2.clients[c].rx_count == (m.clients[c].rx_count + stations_of_client(ss, c))
                    % 0x1_0000_0000
            }
        }),
    decreases ss.len(),
{
    reveal(Seq::filter);
    if ss.len() == 0 {
        assert forall|c: u32| #[trigger] m.clients.contains_key(c) implies stations_of_client(ss, c) == 0 by {
        }
    } else {
        let rest = ss.drop_last();
        assert forall|i: int| 0 <= i < rest.len() implies m.clients.contains_key(#[trigger] rest[i].client_id) by {
            assert(rest[i] == ss[i]);
        }
        lemma_ds_all_counts(m, rest, rcv, am, msg, packet);
        let d = ss.last();
        assert(m.clients.contains_key(d.client_id)) by {
            assert(ss[ss.len() - 1] == d);
        }
        let m1 = ds_all(m, rest, rcv, am, msg, packet).0;
        let m2 = ds_all(m, ss, rcv, am, msg, packet).0;
        assert(m2 == with_change(m1, d.client_id, 4));
        assert(m2.clients.dom() =~= m.clients.dom());
        assert forall|c: u32| #[trigger] m.clients.contains_key(c) implies {
            &&& m2.clients[c].enabled == m.clients[c].enabled
            &&& m2.clients[c].tx_count == m.clients[c].tx_count
            &&& m2.clients[c].rx_count == (m.clients[c].rx_count + stations_of_client(ss, c))
                % 0x1_0000_0000
        } by {
            let k = stations_of_client(rest, c);
            let x = m.clients[c].rx_count;
            if c == d.client_id {
                assert(stations_of_client(ss, c) == k + 1);
                let y = m1.clients[c].rx_count;
                assert(y == (x + k) % 0x1_0000_0000);
                assert((if y == u32::MAX { 0 } else { y + 1 }) == (x + k + 1) % 0x1_0000_0000) by (nonlinear_arith)
                    requires
                        y == (x + k) % 0x1_0000_0000,
                        0 <= y <= u32::MAX,
                ;
            } else {
                assert(stations_of_client(ss, c) == k);
            }
        }
    }
}

/// Where a Frame command comes from the access point, with a receiver
/// address: a frame to a known station's address goes to that station
/// alone; a frame to any other address whose first octet is odd (a group
/// address, such as the broadcast address ff:ff:ff:ff:ff:ff) goes to every
/// station, once each, in order; a frame to any other address goes
/// nowhere and changes nothing.
pub proof fn lemma_frame_response_targets(
    m: MediumModel,
    am: AttrSetModel,
    msg: (NlMsgHdr, HwsimMsgHdr, Seq<u8>),
    packet: Seq<u8>,
)
    requires
        medium_wf(m),
        frame_child(am) is Some,
        am.receiver is Some,
    ensures
        ({
            let dst = MacAddress(frame_child(am).unwrap().destination());
            let rcv = am.receiver.unwrap();
            match frame_response(m, am, msg, packet) {
                Ok((m2, o)) => {
                    &&& forall|i: int|
                        0 <= i < m.stations.len() && #[trigger] m.stations[i].addr == dst ==> o
                            == seq![
                            (
                                m.stations[i].client_id,
                                packet_for_station(m, m.stations[i], rcv, am, msg, packet),
                            ),
                        ]
                    &&& (forall|i: int| 0 <= i < m.stations.len() ==> #[trigger] m.stations[i].addr != dst)
                        && dst.octets()[0] % 2 == 1 ==> {
                        &&& m2.stations == m.stations
                        &&& m2.clients.dom() == m.clients.dom()
                        &&& forall|c: u32| #[trigger] m.clients.contains_key(c) ==> {
                            &&& m2.clients[c].enabled == m.clients[c].enabled
                            &&& m2.clients[c].tx_count == m.clients[c].tx_count
                            &&& m2.clients[c].rx_count == (m.clients[c].rx_count
                                + stations_of_client(m.stations, c)) % 0x1_0000_0000
                        }
                        &&& o.len() == m.stations.len()
                        &&& forall|i: int|
                            0 <= i < m.stations.len() ==> #[trigger] o[i] == (
                                m.stations[i].client_id,
                                packet_for_station(m, m.stations[i], rcv, am, msg, packet),
                            )
                    }
                    &&& (forall|i: int| 0 <= i < m.stations.len() ==> #[trigger] m.stations[i].addr != dst)
                        && dst.octets()[0] % 2 == 0 ==> o.len() == 0 && m2 == m
                },
                Err(_) => false,
            }
        }),
{
    let dst = MacAddress(frame_child(am).unwrap().destination());
    let rcv = am.receiver.unwrap();
    let b = dst.octets()[0];
    assert((b & 1u8 == 1u8) == (b % 2 == 1)) by (bit_vector);
    let ts = ds_targets(m, am);
    lemma_ds_all_deliveries(m, ts, rcv, am, msg, packet);
    if station_of(m.stations, dst) is None && b & 1u8 == 1u8 {
        lemma_ds_all_counts(m, ts, rcv, am, msg, packet);
    }
    if exists|i: int| 0 <= i < m.stations.len() && m.stations[i].addr == dst {
        let j = choose|i: int| 0 <= i < m.stations.len() && m.stations[i].addr == dst;
        assert forall|i: int| 0 <= i < m.stations.len() && #[trigger] m.stations[i].addr == dst implies i == j by {
            assert(distinct_stations(m.stations));
        }
        let o = ds_all(m, ts, rcv, am, msg, packet).1;
        assert(o =~= seq![(m.stations[j].client_id, packet_for_station(m, m.stations[j], rcv, am, msg, packet))]);
    }
}

/// Handling a Frame command from the access point: it goes to its target
/// stations (see `ds_all`); with targets but no receiver attribute it fails.
pub open spec fn frame_response(
    m: MediumModel,
    am: AttrSetModel,
    msg: (NlMsgHdr, HwsimMsgHdr, Seq<u8>),
    packet: Seq<u8>,
) -> Result<(MediumModel, Seq<(u32, Seq<u8>)>), PacketError> {
    let ts = ds_targets(m, am);
    if ts.len() == 0 {
        Ok((m, Seq::empty()))
    } else {
        match am.receiver {
            None => Err(PacketError::MissingAttribute),
            Some(rcv) => Ok(ds_all(m, ts, rcv, am, msg, packet)),
        }
    }
}

/// The clients of the stations of `ss` whose hwsim address is `hw`, each
/// once, in the order of their first such station.
pub open spec fn matching_clients(ss: Seq<Station>, hw: u64) -> Seq<u32>
    decreases ss.len(),
{
    if ss.len() == 0 {
        Seq::empty()
    } else {
        let l = matching_clients(ss.drop_last(), hw);
        let st = ss.last();
        if st.hwsim_addr.0 == hw && !l.contains(st.client_id) {
            l.push(st.client_id)
        } else {
            l
        }
    }
}

/// The packet for each client of `ids` that is enabled, in order.
pub open spec fn to_enabled(m: MediumModel, ids: Seq<u32>, packet: Seq<u8>) -> Seq<(u32, Seq<u8>)>
    decreases ids.len(),
{
    if ids.len() == 0 {
        Seq::empty()
    } else {
        let o = to_enabled(m, ids.drop_last(), packet);
        if m.clients[ids.last()].enabled {
            o.push((ids.last(), packet))
        } else {
            o
        }
    }
}

/// Handling a packet from the access point when Wi-Fi P2P is on: a Frame
/// command goes to its target stations (see `frame_response`); a
/// TxInfoFrame command goes, as it came, to each enabled client with a
/// station whose hwsim address is the transmitter; anything else fails.
pub open spec fn response_spec(m: MediumModel, packet: Seq<u8>) -> Result<(MediumModel, Seq<(u32, Seq<u8>)>), PacketError> {
    match spec_parse_hwsim_msg(packet) {
        Err(e) => Err(e),
        Ok(msg) => if msg.1.hwsim_cmd == HwsimCmd::Frame {
            match spec_frame_attrs(msg.2) {
                Err(e) => Err(e),
                Ok(am) => frame_response(m, am, msg, packet),
            }
        } else if msg.1.hwsim_cmd == HwsimCmd::TxInfoFrame {
            match spec_parse_attr_set(msg.2, None, None) {
                Err(e) => Err(e),
                Ok(am) => match am.transmitter {
                    None => Err(PacketError::MissingAttribute),
                    Some(t) => Ok((m, to_enabled(m, matching_clients(m.stations, t), packet))),
                },
            }
        } else {
            Err(PacketError::UnexpectedCommand)
        },
    }
}

/// A packet from the access point can be handled without a panic: the
/// attributes of a Frame or TxInfoFrame command can be walked, and a Frame
/// command that decodes has the addresses in its body and keeps the netlink
/// lengths of the messages passed on within 32 bits.
pub open spec fn respondable(m: MediumModel, packet: Seq<u8>) -> bool {
    match spec_parse_hwsim_msg(packet) {
        Ok(msg) => {
            &&& (msg.1.hwsim_cmd == HwsimCmd::Frame || msg.1.hwsim_cmd == HwsimCmd::TxInfoFrame) ==> !(parse_attrs(msg.2).1 is Panics)
            &&& msg.1.hwsim_cmd == HwsimCmd::Frame ==> match spec_frame_attrs(msg.2) {
                Ok(am) => {
                    &&& frame_child(am) is Some
                    &&& forall|d: u64| #[trigger] forward_len_fits(m.ap_simulation, m.hostapd_bssid, am, msg, d)
                },
                Err(_) => true,
            }
        },
        Err(_) => true,
    }
}

/// A copy of the bytes.
fn bytes_of(packet: &[u8]) -> (r: Vec<u8>)
    ensures
        r@ == packet@,
{
    let mut v: Vec<u8> = Vec::new();
    crate::wire::push_bytes(&mut v, packet);
    assert(v@ =~= packet@);
    v
}

/// Whether the identifier is in the list.
fn contains_id(v: &Vec<u32>, id: u32) -> (r: bool)
    ensures
        r == v@.contains(id),
{
    let mut i: usize = 0;
    while i < v.len()
        invariant
            i <= v@.len(),
            forall|k: int| 0 <= k < i ==> v@[k] != id,
        decreases v@.len() - i,
    {
        if v[i] == id {
            assert(v@[i as int] == id);
            return true;
        }
        i = i + 1;
    }
    false
}

impl Medium {
    /// Sends a frame from the access point to a station (see `ds_all`).
    fn send_from_ds_frame(&mut self, packet: &[u8], frame: &Frame, destination: &Station, out: &mut Vec<Delivery>, Ghost(am): Ghost<AttrSetModel>, Ghost(msg): Ghost<(NlMsgHdr, HwsimMsgHdr, Seq<u8>)>) -> (r: Result<(), PacketError>)
        requires
            old(self).wf(),
            frame.holds(am, msg),
            frame_child(am) is Some,
            set_fits(am),
            forward_len_fits(old(self)@.ap_simulation, old(self)@.hostapd_bssid, am, msg, destination.hwsim_addr.0),
            old(self)@.clients.contains_key(destination.client_id),
        ensures
            final(self).wf(),
            final(self)@.clients.dom() == old(self)@.clients.dom(),
            match am.receiver {
                None => r == Err::<(), PacketError>(PacketError::MissingAttribute) && final(self)@ == old(self)@ && final(out)@ == old(out)@,
                Some(rcv) => r is Ok && final(self)@ == with_change(old(self)@, destination.client_id, 4)
                    && delivered(final(out)@) == delivered(old(out)@) + seq![(destination.client_id, if rcv == destination.hwsim_addr.0 {
                        packet@
                    } else {
                        hwsim_msg_bytes(forwarded_msg(old(self)@.ap_simulation, old(self)@.hostapd_bssid, am, msg, destination.hwsim_addr.0))
                    })],
            },
    {
        let receiver = match frame.attrs.receiver {
            Some(a) => a,
            None => return Err(PacketError::MissingAttribute),
        };
        let p: Vec<u8> = if receiver.0 == destination.hwsim_addr.0 {
            bytes_of(packet)
        } else {
            match self.create_hwsim_msg(frame, &destination.hwsim_addr, Ghost(am), Ghost(msg)) {
                Some(m) => m.encode_to_vec(),
                None => {
                    assert(false);
                    return Err(PacketError::MissingAttribute);
                },
            }
        };
        let d = Delivery { client_id: destination.client_id, packet: p };
        proof {
            lemma_delivered_push(out@, d);
        }
        out.push(d);
        match self.incr_rx(destination.client_id) {
            Ok(()) => {},
            Err(e) => return Err(e),
        }
        proof {
            assert(self@.clients.dom() =~= old(self)@.clients.dom());
        }
        Ok(())
    }
}

impl Medium {
    /// Sends a frame from the access point to every station, in the order
    /// in which they were first seen (see `ds_all`).
    #[verifier::spinoff_prover]
    fn send_to_all_stations(&mut self, packet: &[u8], frame: &Frame, out: &mut Vec<Delivery>, Ghost(am): Ghost<AttrSetModel>, Ghost(msg): Ghost<(NlMsgHdr, HwsimMsgHdr, Seq<u8>)>) -> (r: Result<(), PacketError>)
        requires
            old(self).wf(),
            frame.holds(am, msg),
            frame_child(am) is Some,
            set_fits(am),
            forall|d: u64| #[trigger] forward_len_fits(old(self)@.ap_simulation, old(self)@.hostapd_bssid, am, msg, d),
        ensures
            final(self).wf(),
            old(self)@.stations.len() > 0 && am.receiver is None ==> r == Err::<(), PacketError>(PacketError::MissingAttribute) && final(self)@ == old(self)@ && final(out)@ == old(out)@,
            old(self)@.stations.len() == 0 ==> r is Ok && final(self)@ == old(self)@ && final(out)@ == old(out)@,
            am.receiver is Some ==> r is Ok && final(self)@ == ds_all(old(self)@, old(self)@.stations, am.receiver.unwrap(), am, msg, packet@).0
                && delivered(final(out)@) == delivered(old(out)@) + ds_all(old(self)@, old(self)@.stations, am.receiver.unwrap(), am, msg, packet@).1,
    {
        let ghost m0 = self@;
        let ghost out0 = out@;
        proof {
            assert(delivered(out0) =~= delivered(out0) + Seq::<(u32, Seq<u8>)>::empty());
        }
        let mut i: usize = 0;
        while i < self.stations.len()
            invariant
                self.wf(),
                m0 == old(self)@,
                out0 == old(out)@,
                i <= m0.stations.len(),
                self@.stations == m0.stations,
                self@.ap_simulation == m0.ap_simulation,
                self@.hostapd_bssid == m0.hostapd_bssid,
                self@.clients.dom() == m0.clients.dom(),
                medium_wf(m0),
                i > 0 ==> am.receiver is Some,
                i == 0 ==> self@ == m0 && out@ == out0,
                am.receiver is Some ==> self@ == ds_all(m0, m0.stations.take(i as int), am.receiver.unwrap(), am, msg, packet@).0,
                am.receiver is Some ==> delivered(out@) == delivered(out0) + ds_all(m0, m0.stations.take(i as int), am.receiver.unwrap(), am, msg, packet@).1,
                frame.holds(am, msg),
                frame_child(am) is Some,
                set_fits(am),
                forall|d: u64| #[trigger] forward_len_fits(m0.ap_simulation, m0.hostapd_bssid, am, msg, d),
            decreases m0.stations.len() - i,
        {
            let destination = self.stations[i];
            proof {
                assert(m0.stations.take(i + 1).drop_last() =~= m0.stations.take(i as int));
                assert(m0.stations.take(i + 1).last() == destination);
                assert(m0.clients.contains_key(m0.stations[i as int].client_id));
                assert(forward_len_fits(m0.ap_simulation, m0.hostapd_bssid, am, msg, destination.hwsim_addr.0));
            }
            match self.send_from_ds_frame(packet, frame, &destination, out, Ghost(am), Ghost(msg)) {
                Ok(()) => {},
                Err(e) => {
                    proof {
                        assert(am.receiver is None);
                        assert(i == 0);
                        assert(m0.stations.len() > 0);
                    }
                    return Err(e);
                },
            }
            proof {
                let rcv = am.receiver.unwrap();
                let (m1, o1) = ds_all(m0, m0.stations.take(i as int), rcv, am, msg, packet@);
                let p = if rcv == destination.hwsim_addr.0 {
                    packet@
                } else {
                    hwsim_msg_bytes(forwarded_msg(m0.ap_simulation, m0.hostapd_bssid, am, msg, destination.hwsim_addr.0))
                };
                assert(delivered(out@) =~= delivered(out0) + (o1 + seq![(destination.client_id, p)]));
            }
            i = i + 1;
        }
        proof {
            assert(m0.stations.take(m0.stations.len() as int) =~= m0.stations);
        }
        Ok(())
    }

    /// Sends a Frame command from the access point to its target stations
    /// (see `frame_response`).
    fn send_frame_response(&mut self, packet: &[u8], hwsim_msg: &HwsimMsg, out: &mut Vec<Delivery>) -> (r: Result<(), PacketError>)
        requires
            old(self).wf(),
            hwsim_msg.hwsim_hdr.hwsim_cmd == HwsimCmd::Frame,
            !(parse_attrs(hwsim_msg.attributes@).1 is Panics),
            match spec_frame_attrs(hwsim_msg.attributes@) {
                Ok(am) => frame_child(am) is Some && forall|d: u64| #[trigger] forward_len_fits(old(self)@.ap_simulation, old(self)@.hostapd_bssid, am, hwsim_msg@, d),
                Err(_) => true,
            },
        ensures
            final(self).wf(),
            match spec_frame_attrs(hwsim_msg.attributes@) {
                Err(e) => r == Err::<(), PacketError>(e) && final(self)@ == old(self)@ && final(out)@ == old(out)@,
                Ok(am) => match frame_response(old(self)@, am, hwsim_msg@, packet@) {
                    Err(e) => r == Err::<(), PacketError>(e) && final(self)@ == old(self)@ && final(out)@ == old(out)@,
                    Ok(res) => r is Ok && final(self)@ == res.0 && delivered(final(out)@) == delivered(old(out)@) + res.1,
                },
            },
    {
        let ghost m0 = self@;
        let ghost out0 = out@;
        let frame = match Frame::parse(hwsim_msg) {
            Ok(f) => f,
            Err(e) => return Err(e),
        };
        let ghost am = frame.attrs@;
        let ghost msg = hwsim_msg@;
        proof {
            lemma_parsed_set_fits(msg.2);
            assert(delivered(out0) =~= delivered(out0) + Seq::<(u32, Seq<u8>)>::empty());
        }
        let dest_addr = frame.ieee80211.get_destination();
        match self.get_station(&dest_addr) {
            Ok(destination) => {
                proof {
                    lemma_station_of_known(m0, dest_addr);
                    assert(seq![destination].drop_last() =~= Seq::<Station>::empty());
                }
                match self.send_from_ds_frame(packet, &frame, &destination, out, Ghost(am), Ghost(msg)) {
                    Ok(()) => {},
                    Err(e) => return Err(e),
                }
                proof {
                    let rcv = am.receiver.unwrap();
                    assert(ds_all(m0, Seq::<Station>::empty(), rcv, am, msg, packet@) == (m0, Seq::<(u32, Seq<u8>)>::empty()));
                    let o = ds_all(m0, seq![destination], rcv, am, msg, packet@).1;
                    assert(delivered(out@) =~= delivered(out0) + o);
                }
            },
            Err(_) => {
                if dest_addr.is_multicast() {
                    match self.send_to_all_stations(packet, &frame, out, Ghost(am), Ghost(msg)) {
                        Ok(()) => {},
                        Err(e) => return Err(e),
                    }
                }
            },
        }
        Ok(())
    }
}

impl Medium {
    /// The clients of the stations whose hwsim address is `hw`, each once
    /// (see `matching_clients`).
    fn clients_with_hwsim_addr(&self, hw: &MacAddress) -> (r: Vec<u32>)
        requires
            self.wf(),
        ensures
            r@ == matching_clients(self@.stations, hw.0),
            forall|k: int| 0 <= k < r@.len() ==> self@.clients.contains_key(#[trigger] r@[k]),
    {
        let ghost ss = self.stations@;
        let mut ids: Vec<u32> = Vec::new();
        let mut i: usize = 0;
        while i < self.stations.len()
            invariant
                self.wf(),
                ss == self.stations@,
                i <= ss.len(),
                ids@ == matching_clients(ss.take(i as int), hw.0),
                forall|k: int| 0 <= k < ids@.len() ==> self@.clients.contains_key(#[trigger] ids@[k]),
            decreases ss.len() - i,
        {
            let st = self.stations[i];
            proof {
                assert(ss.take(i + 1).drop_last() =~= ss.take(i as int));
                assert(ss.take(i + 1).last() == st);
                assert(self@.clients.contains_key(self@.stations[i as int].client_id));
            }
            if st.hwsim_addr.0 == hw.0 && !contains_id(&ids, st.client_id) {
                ids.push(st.client_id);
            }
            i = i + 1;
        }
        proof {
            assert(ss.take(ss.len() as int) =~= ss);
        }
        ids
    }

    /// Passes a TxInfoFrame command from the access point, as it came, to
    /// each enabled client with a station whose hwsim address is its
    /// transmitter.
    fn send_tx_info_response(&self, packet: &[u8], hwsim_msg: &HwsimMsg, out: &mut Vec<Delivery>) -> (r: Result<(), PacketError>)
        requires
            self.wf(),
            !(parse_attrs(hwsim_msg.attributes@).1 is Panics),
        ensures
            match spec_parse_attr_set(hwsim_msg.attributes@, None, None) {
                Err(e) => r == Err::<(), PacketError>(e) && final(out)@ == old(out)@,
                Ok(am) => match am.transmitter {
                    None => r == Err::<(), PacketError>(PacketError::MissingAttribute) && final(out)@ == old(out)@,
                    Some(t) => r is Ok && delivered(final(out)@) == delivered(old(out)@) + to_enabled(
                        self@,
                        matching_clients(self@.stations, t),
                        packet@,
                    ),
                },
            },
    {
        let attrs = match HwsimAttrSet::parse(hwsim_msg.get_attributes()) {
            Ok(a) => a,
            Err(e) => return Err(e),
        };
        let hwsim_addr = match attrs.transmitter {
            Some(t) => t,
            None => return Err(PacketError::MissingAttribute),
        };
        let ids = self.clients_with_hwsim_addr(&hwsim_addr);
        let ghost out0 = out@;
        proof {
            assert(delivered(out0) =~= delivered(out0) + Seq::<(u32, Seq<u8>)>::empty());
        }
        let mut j: usize = 0;
        while j < ids.len()
            invariant
                self.wf(),
                out0 == old(out)@,
                j <= ids@.len(),
                ids@ == matching_clients(self@.stations, hwsim_addr.0),
                forall|k: int| 0 <= k < ids@.len() ==> self@.clients.contains_key(#[trigger] ids@[k]),
                delivered(out@) == delivered(out0) + to_enabled(self@, ids@.take(j as int), packet@),
            decreases ids@.len() - j,
        {
            let id = ids[j];
            proof {
                assert(ids@.take(j + 1).drop_last() =~= ids@.take(j as int));
                assert(ids@.take(j + 1).last() == id);
                assert(self@.clients.contains_key(ids@[j as int]));
            }
            match self.enabled(id) {
                Ok(true) => {
                    let d = Delivery { client_id: id, packet: bytes_of(packet) };
                    proof {
                        lemma_delivered_push(out@, d);
                        assert(delivered(out@) + seq![(id, packet@)] =~= delivered(out0) + to_enabled(self@, ids@.take(j as int), packet@).push((id, packet@)));
                    }
                    out.push(d);
                },
                Ok(false) => {},
                Err(e) => return Err(e),
            }
            j = j + 1;
        }
        proof {
            assert(ids@.take(ids@.len() as int) =~= ids@);
        }
        Ok(())
    }
}

/// The packet for each client of `ids`, in order.
pub open spec fn to_each(ids: Seq<u32>, packet: Seq<u8>) -> Seq<(u32, Seq<u8>)> {
    ids.map_values(|id: u32| (id, packet))
}

/// The outcome of handling a packet from the access point: with Wi-Fi P2P
/// off, every known client gets it as it came, once each, and nothing
/// changes; otherwise as `response_spec` says, with nothing changed and
/// nothing sent on failure.
pub open spec fn response_outcome(
    m0: MediumModel,
    o0: Seq<(u32, Seq<u8>)>,
    packet: Seq<u8>,
    disable_wifi_p2p: bool,
    m: MediumModel,
    o: Seq<(u32, Seq<u8>)>,
    r: Result<(), PacketError>,
) -> bool {
    if disable_wifi_p2p {
        &&& r is Ok
        &&& m == m0
        &&& exists|ids: Seq<u32>|
            #![trigger to_each(ids, packet)]
            {
                &&& ids.no_duplicates()
                &&& forall|id: u32| ids.contains(id) <==> m0.clients.contains_key(id)
                &&& o == o0 + to_each(ids, packet)
            }
    } else {
        match response_spec(m0, packet) {
            Err(e) => r == Err::<(), PacketError>(e) && m == m0 && o == o0,
            Ok(res) => r is Ok && m == res.0 && o == o0 + res.1,
        }
    }
}

impl Medium {
    /// The identifiers of the known clients, each once, in the map's order.
    fn client_ids(&self) -> (r: Vec<u32>)
        ensures
            r@.no_duplicates(),
            forall|k: u32| #[trigger] r@.contains(k) <==> self@.clients.contains_key(k),
    {
        let mut ks: Vec<u32> = Vec::new();
        for k in it: self.clients.keys()
            invariant
                it.seq().no_duplicates(),
                ks@.no_duplicates(),
                forall|x: u32| #[trigger]
                    ks@.contains(x) ==> self@.clients.contains_key(x) && exists|j: int|
                        0 <= j < it.index() && *it.seq()[j] == x,
                forall|x: u32|
                    self@.clients.contains_key(x) ==> #[trigger] ks@.contains(x) || exists|j: int|
                        it.index() <= j < it.seq().len() && *it.seq()[j] == x,
        {
            let kk: u32 = *k;
            match self.clients.get(&kk) {
                Some(_) => {
                    proof {
                        assert(!ks@.contains(kk)) by {
                            if ks@.contains(kk) {
                                let j = choose|j: int| 0 <= j < it.index() && *it.seq()[j] == kk;
                                assert(it.seq()[j] == it.seq()[it.index() as int]);
                            }
                        }
                        let k2 = ks@.push(kk);
                        assert forall|x: u32| #[trigger] k2.contains(x) == (ks@.contains(x) || x == kk) by {
                            if x == kk {
                                assert(k2[ks@.len() as int] == kk);
                            }
                            if ks@.contains(x) {
                                let j = choose|j: int| 0 <= j < ks@.len() && ks@[j] == x;
                                assert(k2[j] == x);
                            }
                        }
                        assert forall|a: int, b: int| 0 <= a < k2.len() && 0 <= b < k2.len() && a != b implies k2[a]
                            != k2[b] by {
                            if a == ks@.len() as int {
                                assert(ks@.contains(k2[b]));
                            }
                            if b == ks@.len() as int {
                                assert(ks@.contains(k2[a]));
                            }
                        }
                    }
                    ks.push(kk);
                },
                None => {},
            }
        }
        ks
    }

    /// Passes a packet from the access point (hostapd or the user-mode
    /// network stack) to the clients it is for (see `response_outcome`).
    fn send_response(&mut self, packet: &[u8], disable_wifi_p2p: bool, out: &mut Vec<Delivery>) -> (r: Result<(), PacketError>)
        requires
            old(self).wf(),
            disable_wifi_p2p || respondable(old(self)@, packet@),
        ensures
            final(self).wf(),
            response_outcome(old(self)@, delivered(old(out)@), packet@, disable_wifi_p2p, final(self)@, delivered(final(out)@), r),
    {
        let ghost m0 = self@;
        let ghost out0 = out@;
        if disable_wifi_p2p {
            let ids = self.client_ids();
            let mut i: usize = 0;
            while i < ids.len()
                invariant
                    self.wf(),
                    self@ == m0,
                    i <= ids@.len(),
                    delivered(out@) == delivered(out0) + to_each(ids@.take(i as int), packet@),
                decreases ids@.len() - i,
            {
                let id = ids[i];
                let d = Delivery { client_id: id, packet: bytes_of(packet) };
                proof {
                    lemma_delivered_push(out@, d);
                    assert(ids@.take(i + 1) =~= ids@.take(i as int).push(id));
                    assert(to_each(ids@.take(i + 1), packet@) =~= to_each(
                        ids@.take(i as int),
                        packet@,
                    ).push((id, packet@)));
                }
                out.push(d);
                i = i + 1;
            }
            proof {
                assert(ids@.take(ids@.len() as int) =~= ids@);
                assert(delivered(out@) == delivered(out0) + to_each(ids@, packet@));
            }
            return Ok(());
        }
        let hwsim_msg = match HwsimMsg::parse(packet) {
            Ok(m) => m,
            Err(e) => return Err(e),
        };
        match hwsim_msg.hwsim_hdr.hwsim_cmd {
            HwsimCmd::Frame => self.send_frame_response(packet, &hwsim_msg, out),
            HwsimCmd::TxInfoFrame => self.send_tx_info_response(packet, &hwsim_msg, out),
            _ => Err(PacketError::UnexpectedCommand),
        }
    }

    /// Passes a packet from the access point (hostapd or the user-mode
    /// network stack) to the clients it is for; a packet that cannot be
    /// handled changes nothing and goes nowhere (see `response_outcome`).
    /// With `disable_wifi_p2p`, every client gets every such packet.
    pub fn process_response(&mut self, packet: &[u8], disable_wifi_p2p: bool, out: &mut Vec<Delivery>)
        requires
            old(self).wf(),
            disable_wifi_p2p || respondable(old(self)@, packet@),
        ensures
            final(self).wf(),
            exists|r: Result<(), PacketError>| response_outcome(old(self)@, delivered(old(out)@), packet@, disable_wifi_p2p, final(self)@, delivered(final(out)@), r),
    {
        let r = self.send_response(packet, disable_wifi_p2p, out);
        assert(response_outcome(old(self)@, delivered(old(out)@), packet@, disable_wifi_p2p, self@, delivered(out@), r));
    }
}

/// Lists whose attributes take the same numbers of bytes, one by one, make
/// sets of attribute bytes of the same length.
proof fn lemma_attr_set_len(l1: Seq<AttrValue>, l2: Seq<AttrValue>)
    requires
        l1.len() == l2.len(),
        forall|i: int| 0 <= i < l1.len() ==> attr_bytes(#[trigger] l1[i]).len() == attr_bytes(l2[i]).len(),
    ensures
        attr_set_of(l1).attributes.len() == attr_set_of(l2).attributes.len(),
    decreases l1.len(),
{
    if l1.len() > 0 {
        lemma_attr_set_len(l1.drop_last(), l2.drop_last());
        assert(attr_bytes(l1[l1.len() - 1]).len() == attr_bytes(l2[l1.len() - 1]).len());
    }
}

/// The attributes passed on take as many bytes whatever the receiver.
proof fn lemma_forwarded_len(ap_simulation: bool, bssid: MacAddress, am: AttrSetModel, d1: u64, d2: u64)
    ensures
        forwarded_attrs(ap_simulation, bssid, am, d1).len() == forwarded_attrs(ap_simulation, bssid, am, d2).len(),
{
    let l1 = forwarded_attr_list(ap_simulation, bssid, am, d1);
    let l2 = forwarded_attr_list(ap_simulation, bssid, am, d2);
    assert forall|i: int| 0 <= i < l1.len() implies attr_bytes(#[trigger] l1[i]).len() == attr_bytes(l2[i]).len() by {
        if i > 0 {
            assert(l1[i] == l2[i]);
        }
    }
    lemma_attr_set_len(l1, l2);
}

impl Medium {
    /// Whether the frame's netlink lengths stay within 32 bits when it is
    /// acknowledged and passed on (see `tx_info_len_fits` and `forward_len_fits`).
    fn lengths_fit(&self, frame: &Frame, Ghost(am): Ghost<AttrSetModel>, Ghost(msg): Ghost<(NlMsgHdr, HwsimMsgHdr, Seq<u8>)>) -> (r: bool)
        requires
            frame.holds(am, msg),
            frame_child(am) is Some,
            set_fits(am),
            acknowledgeable(am),
        ensures
            r == (tx_info_len_fits(msg.0, am) && forall|d: u64| #[trigger] forward_len_fits(self.ap_simulation, self.hostapd_bssid, am, msg, d)),
    {
        let tx = match tx_info_attr_set(&frame.attrs) {
            Ok(t) => t,
            Err(_) => {
                assert(false);
                return false;
            },
        };
        let fwd = match self.create_hwsim_attr(frame, &MacAddress(0), Ghost(am), Ghost(msg)) {
            Ok(v) => v,
            Err(_) => {
                assert(false);
                return false;
            },
        };
        let old_len = frame.hwsim_msg.attributes.len();
        let nl = frame.hwsim_msg.nl_hdr.nlmsg_len as u64;
        let n_tx = tx.attributes.len();
        let set_len = frame.attrs.attributes.len() as u32;
        let tx_fits = (n_tx as u64) < 0x1_0000_0000u64 && nl + (n_tx as u64) <= 0xffff_ffff && nl + (n_tx as u64) >= (set_len as u64);
        let n = fwd.len();
        let fwd_fits = (n as u64) < 0x1_0000_0000u64 && (old_len as u64) < 0x1_0000_0000u64 && nl + (n as u64) <= 0xffff_ffff && nl + (n as u64) >= (old_len as u64);
        proof {
            assert(set_len == (am.attributes.len() as u32));
            assert(tx_fits == tx_info_len_fits(msg.0, am));
            assert(fwd_fits == forward_len_fits(self.ap_simulation, self.hostapd_bssid, am, msg, 0));
            assert forall|d: u64| #[trigger] forward_len_fits(self.ap_simulation, self.hostapd_bssid, am, msg, d) == fwd_fits by {
                lemma_forwarded_len(self.ap_simulation, self.hostapd_bssid, am, d, 0);
            }
        }
        tx_fits && fwd_fits
    }

    /// Whether `process` can take the packet without a panic (see `processable`).
    pub fn can_process(&self, packet: &[u8]) -> (r: bool)
        ensures
            r == processable(self@, packet@),
    {
        let msg = match HwsimMsg::parse(packet) {
            Ok(m) => m,
            Err(_) => return true,
        };
        match msg.hwsim_hdr.hwsim_cmd {
            HwsimCmd::Frame => {},
            _ => return true,
        }
        if !attrs_walkable(msg.get_attributes()) {
            return false;
        }
        let frame = match Frame::parse(&msg) {
            Ok(f) => f,
            Err(_) => return true,
        };
        if frame.transmitter.is_none() || frame.flags.is_none() || frame.cookie.is_none() || frame.tx_info.is_none() {
            return true;
        }
        let ghost am = frame.attrs@;
        assert(spec_frame_attrs(msg.attributes@) == Ok::<AttrSetModel, PacketError>(am));
        assert(acknowledgeable(am));
        assert(frame.ieee80211.child() == frame_child(am));
        if frame.ieee80211.specialize().is_err() {
            return false;
        }
        proof {
            lemma_parsed_set_fits(msg.attributes@);
        }
        let r = self.lengths_fit(&frame, Ghost(am), Ghost(msg@));
        proof {
            let m = self@;
            assert(m.ap_simulation == self.ap_simulation && m.hostapd_bssid == self.hostapd_bssid);
            assert((forall|d: u64| #[trigger] forward_len_fits(m.ap_simulation, m.hostapd_bssid, am, msg@, d)) == (forall|d: u64| #[trigger] forward_len_fits(self.ap_simulation, self.hostapd_bssid, am, msg@, d)));
        }
        r
    }

    /// Whether `process_response` can take the packet without a panic (see
    /// `respondable`).
    pub fn can_respond(&self, packet: &[u8]) -> (r: bool)
        ensures
            r == respondable(self@, packet@),
    {
        let msg = match HwsimMsg::parse(packet) {
            Ok(m) => m,
            Err(_) => return true,
        };
        let is_frame = match msg.hwsim_hdr.hwsim_cmd {
            HwsimCmd::Frame => true,
            HwsimCmd::TxInfoFrame => false,
            _ => return true,
        };
        if !attrs_walkable(msg.get_attributes()) {
            return false;
        }
        if !is_frame {
            return true;
        }
        let frame = match Frame::parse(&msg) {
            Ok(f) => f,
            Err(_) => return true,
        };
        let ghost am0 = frame.attrs@;
        assert(spec_frame_attrs(msg.attributes@) == Ok::<AttrSetModel, PacketError>(am0));
        assert(frame.ieee80211.child() == frame_child(am0));
        if frame.ieee80211.specialize().is_err() {
            return false;
        }
        proof {
            lemma_parsed_set_fits(msg.attributes@);
        }
        let fwd = match self.create_hwsim_attr(&frame, &MacAddress(0), Ghost(frame.attrs@), Ghost(msg@)) {
            Ok(v) => v,
            Err(_) => {
                assert(false);
                return false;
            },
        };
        let ghost am = frame.attrs@;
        let old_len = msg.attributes.len();
        let nl = msg.nl_hdr.nlmsg_len as u64;
        let n = fwd.len();
        let fits = (n as u64) < 0x1_0000_0000u64 && (old_len as u64) < 0x1_0000_0000u64 && nl + (n as u64) <= 0xffff_ffff && nl + (n as u64) >= (old_len as u64);
        proof {
            assert forall|d: u64| #[trigger] forward_len_fits(self.ap_simulation, self.hostapd_bssid, am, msg@, d) == fits by {
                lemma_forwarded_len(self.ap_simulation, self.hostapd_bssid, am, d, 0);
            }
            let m = self@;
            assert(m.ap_simulation == self.ap_simulation && m.hostapd_bssid == self.hostapd_bssid);
            assert((forall|d: u64| #[trigger] forward_len_fits(m.ap_simulation, m.hostapd_bssid, am, msg@, d)) == (forall|d: u64| #[trigger] forward_len_fits(self.ap_simulation, self.hostapd_bssid, am, msg@, d)));
        }
        proof {
            let m = self@;
            if fits {
                assert forall|d: u64| #[trigger] forward_len_fits(m.ap_simulation, m.hostapd_bssid, am, msg@, d) by {
                    assert(forward_len_fits(self.ap_simulation, self.hostapd_bssid, am, msg@, d));
                }
            } else {
                assert(!forward_len_fits(m.ap_simulation, m.hostapd_bssid, am, msg@, 0));
            }
        }
        fits
    }
}

/// The attributes of an acknowledgement decode to themselves, and
/// acknowledging them again gives the same attributes.
#[verifier::spinoff_prover]
#[verifier::rlimit(40)]
pub proof fn lemma_tx_info_attrs_stable(am: AttrSetModel)
    requires
        acknowledgeable(am),
        set_fits(am),
    ensures
        spec_parse_attr_set(tx_info_attrs(am).attributes, None, None) == Ok::<AttrSetModel, PacketError>(tx_info_attrs(am)),
        acknowledgeable(tx_info_attrs(am)),
        set_fits(tx_info_attrs(am)),
        tx_info_attrs(tx_info_attrs(am)) == tx_info_attrs(am),
{
    let t = am.transmitter.unwrap();
    let f = am.flags.unwrap();
    let sig = match am.signal {
        Some(v) => v,
        None => SIGNAL,
    };
    let tt = le48(le48_bytes(t));
    let l = seq![
        AttrValue::Transmitter(tt),
        AttrValue::Flags(f | HWSIM_TX_STAT_ACK),
        AttrValue::Cookie(am.cookie.unwrap()),
        AttrValue::Signal(sig),
        AttrValue::TxInfo(am.tx_info.unwrap()),
    ];
    crate::wire::lemma_le48(t, le48_bytes(t));
    crate::wire::lemma_le48(tt, le48_bytes(t));
    assert(forall|i: int| 0 <= i < l.len() ==> attr_wf(#[trigger] l[i]));
    lemma_attr_set_roundtrip(l);
    reveal_with_fuel(attr_set_of, 6);
    let m = attr_set_of(l);
    assert(m.transmitter == Some(tt));
    assert(m.flags == Some(f | HWSIM_TX_STAT_ACK));
    assert(m.signal == Some(sig));
    assert((f | HWSIM_TX_STAT_ACK) | HWSIM_TX_STAT_ACK == f | HWSIM_TX_STAT_ACK) by (bit_vector);
    assert(le48(le48_bytes(tt)) == tt);
}

/// Acknowledging an acknowledgement gives it back: the TxInfoFrame message
/// built from a Frame message decodes, and the TxInfoFrame message built
/// from it is the same message.
#[verifier::spinoff_prover]
#[verifier::rlimit(40)]
pub proof fn lemma_tx_info_msg_stable(am: AttrSetModel, msg: (NlMsgHdr, HwsimMsgHdr, Seq<u8>))
    requires
        acknowledgeable(am),
        set_fits(am),
        tx_info_len_fits(msg.0, am),
    ensures
        spec_parse_hwsim_msg(hwsim_msg_bytes(tx_info_msg(am, msg))) == Ok::<(NlMsgHdr, HwsimMsgHdr, Seq<u8>), PacketError>(tx_info_msg(am, msg)),
        spec_parse_attr_set(tx_info_msg(am, msg).2, None, None) == Ok::<AttrSetModel, PacketError>(tx_info_attrs(am)),
        tx_info_msg(tx_info_attrs(am), tx_info_msg(am, msg)) == tx_info_msg(am, msg),
{
    lemma_tx_info_attrs_stable(am);
    crate::hwsim::lemma_hwsim_msg_roundtrip(tx_info_msg(am, msg));
}

/// Removing a client leaves no station of it and forgets it, and keeps every
/// station and client of the others.
pub proof fn lemma_remove_forgets(m: MediumModel, client_id: u32)
    ensures
        ({
            let ss = m.stations.filter(|s: Station| s.client_id != client_id);
            &&& forall|i: int| 0 <= i < ss.len() ==> (#[trigger] ss[i]).client_id != client_id
            &&& forall|i: int| 0 <= i < m.stations.len() && (#[trigger] m.stations[i]).client_id != client_id ==> ss.contains(m.stations[i])
            &&& !m.clients.remove(client_id).contains_key(client_id)
            &&& forall|id: u32| id != client_id ==> m.clients.remove(client_id).contains_key(id) == m.clients.contains_key(id)
        }),
{
    let pred = |s: Station| s.client_id != client_id;
    let ss = m.stations.filter(pred);
    assert forall|i: int| 0 <= i < ss.len() implies (#[trigger] ss[i]).client_id != client_id by {
        m.stations.lemma_filter_pred(pred, i);
    }
    assert forall|i: int| 0 <= i < m.stations.len() && (#[trigger] m.stations[i]).client_id != client_id implies ss.contains(m.stations[i]) by {
        m.stations.lemma_filter_contains(pred, i);
    }
}

impl Client {
    /// An enabled client that has sent and received nothing.
    pub open spec fn new_spec() -> Client {
        Client { enabled: true, tx_count: 0, rx_count: 0 }
    }
}

} // verus!
