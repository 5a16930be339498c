//! The hwsim Frame command (HWSIM_CMD_FRAME), sent by the kernel's
//! mac80211_hwsim subsystem with an IEEE 802.11 frame and its attributes.

use crate::error::PacketError;
use crate::hwsim::{
    clone_rates, mac_opt, rates_opt, spec_parse_attr_set, parse_attrs, AttrSetModel, HwsimAttrSet,
    HwsimCmd, HwsimMsg, TxRate,
};
use crate::ieee80211::{spec_parse_ieee80211, Ieee80211, MacAddress};
use vstd::prelude::*;

verus! {

/// A Frame command with its 802.11 frame decoded (raw in `data`, decoded
/// in `ieee80211`), its transmitter, flags, rates, cookie, signal and
/// frequency where present (a frame that the access point sends back may
/// lack the first four), the whole attribute set and the message itself.
#[derive(Debug)]
pub struct Frame {
    pub transmitter: Option<MacAddress>,
    pub flags: Option<u32>,
    pub tx_info: Option<Vec<TxRate>>,
    pub cookie: Option<u64>,
    pub signal: Option<u32>,
    pub freq: Option<u32>,
    pub data: Vec<u8>,
    pub ieee80211: Ieee80211,
    pub hwsim_msg: HwsimMsg,
    pub attrs: HwsimAttrSet,
}

/// The attribute set of a Frame command when it holds a decodable frame,
/// or the error that stops the decoding: first those of the attributes,
/// then a missing frame, then a frame shorter than its header.
pub open spec fn spec_frame_attrs(attributes: Seq<u8>) -> Result<AttrSetModel, PacketError> {
    match spec_parse_attr_set(attributes, None, None) {
        Err(e) => Err(e),
        Ok(m) => if m.frame is None {
            Err(PacketError::MissingAttribute)
        } else if spec_parse_ieee80211(m.frame.unwrap()) is None {
            Err(PacketError::TooShort)
        } else {
            Ok(m)
        },
    }
}

impl Frame {
    /// The frame holds the values of the attribute set `m` of the message `msg`.
    pub open spec fn holds(&self, m: AttrSetModel, msg: (crate::hwsim::NlMsgHdr, crate::hwsim::HwsimMsgHdr, Seq<u8>)) -> bool {
        &&& self.attrs@ == m
        &&& mac_opt(self.transmitter) == m.transmitter
        &&& self.flags == m.flags
        &&& rates_opt(self.tx_info) == m.tx_info
        &&& self.cookie == m.cookie
        &&& self.signal == m.signal
        &&& self.freq == m.freq
        &&& Some(self.data@) == m.frame
        &&& spec_parse_ieee80211(self.data@) == Some((self.ieee80211.fields(), self.ieee80211.payload@))
        &&& self.hwsim_msg@ == msg
    }

    /// Builds and validates the frame from the attributes of a Frame command.
    pub fn parse(msg: &HwsimMsg) -> (r: Result<Frame, PacketError>)
        requires
            msg.hwsim_hdr.hwsim_cmd == HwsimCmd::Frame,
            !(parse_attrs(msg.attributes@).1 is Panics),
        ensures
            match spec_frame_attrs(msg.attributes@) {
                Ok(m) => r matches Ok(f) && f.holds(m, msg@),
                Err(e) => r == Err::<Frame, PacketError>(e),
            },
    {
        let attrs = match HwsimAttrSet::parse(msg.get_attributes()) {
            Ok(a) => a,
            Err(e) => return Err(e),
        };
        let frame = match &attrs.frame {
            Some(f) => crate::wire::clone_bytes(f),
            None => return Err(PacketError::MissingAttribute),
        };
        let ieee80211 = match Ieee80211::parse(frame.as_slice()) {
            Ok(f) => f,
            Err(e) => return Err(e),
        };
        let tx_info = match &attrs.tx_info {
            Some(t) => Some(clone_rates(t)),
            None => None,
        };
        Ok(
            Frame {
                transmitter: attrs.transmitter,
                flags: attrs.flags,
                tx_info,
                cookie: attrs.cookie,
                signal: attrs.signal,
                freq: attrs.freq,
                data: frame,
                ieee80211,
                hwsim_msg: msg.clone_msg(),
                attrs,
            },
        )
    }
}

} // verus!
