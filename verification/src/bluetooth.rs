//! The state that an emulated Bluetooth chip keeps on this side of the
//! controller: whether each of its two radios is on, and the invalid packets
//! reported last. The controller itself is driven by the caller, which is
//! told when a radio joins or leaves the physical layer.

use crate::chip::EmulatedChip;
use vstd::prelude::*;

verus! {

/// The state of a radio.
#[derive(Clone, Copy, Debug, PartialEq, Eq, Structural)]
pub enum RadioState {
    Unknown,
    On,
    Off,
}

/// What the caller does with the physical layer after a radio was patched.
#[derive(Clone, Copy, Debug, PartialEq, Eq, Structural)]
pub enum PhyChange {
    /// Add the radio to the physical layer.
    Add,
    /// Remove the radio from the physical layer.
    Remove,
    /// Leave it as it is.
    Keep,
}

/// The state a radio is in after a patch that asks for `requested` (`None`
/// for a state the patch does not name), and what that means for the
/// physical layer: only a change between on and off does anything.
pub open spec fn patched(enabled: RadioState, requested: Option<RadioState>) -> (RadioState, PhyChange) {
    match (requested, enabled) {
        (Some(RadioState::On), RadioState::Off) => (RadioState::On, PhyChange::Add),
        (Some(RadioState::Off), RadioState::On) => (RadioState::Off, PhyChange::Remove),
        _ => (enabled, PhyChange::Keep),
    }
}

/// A patch applied a second time changes nothing more.
pub proof fn lemma_patched_idempotent(enabled: RadioState, requested: Option<RadioState>)
    ensures
        patched(patched(enabled, requested).0, requested) == (
            patched(enabled, requested).0,
            PhyChange::Keep,
        ),
{
}

/// Patches the state of one radio (see `patched`).
pub fn patch_state(enabled: &mut RadioState, requested: Option<RadioState>) -> (r: PhyChange)
    ensures
        (*final(enabled), r) == patched(*old(enabled), requested),
{
    match (requested, *enabled) {
        (Some(RadioState::On), RadioState::Off) => {
            *enabled = RadioState::On;
            PhyChange::Add
        },
        (Some(RadioState::Off), RadioState::On) => {
            *enabled = RadioState::Off;
            PhyChange::Remove
        },
        _ => PhyChange::Keep,
    }
}

/// How many invalid packets a chip keeps.
pub const MAX_INVALID_PACKETS: usize = 5;

/// A packet that the controller found invalid.
#[derive(Debug)]
pub struct InvalidPacket {
    /// The reason's code, as the controller reports it.
    pub reason: i32,
    pub description: String,
    pub packet: Vec<u8>,
}

/// The last `MAX_INVALID_PACKETS` of a sequence of reports, oldest first.
pub open spec fn recent<T>(s: Seq<T>) -> Seq<T> {
    if s.len() > MAX_INVALID_PACKETS {
        s.skip(s.len() - MAX_INVALID_PACKETS)
    } else {
        s
    }
}

/// Keeping the recent reports and then adding one is keeping the recent
/// reports of the longer sequence: a chip that saw reports `s` one at a
/// time holds `recent(s)`.
pub proof fn lemma_recent_push<T>(s: Seq<T>, x: T)
    ensures
        recent(recent(s).push(x)) == recent(s.push(x)),
{
    if s.len() > MAX_INVALID_PACKETS {
        assert(recent(recent(s).push(x)) =~= recent(s.push(x)));
    }
}

/// The radio states and the recent invalid packets of an emulated chip.
pub struct BluetoothChip {
    low_energy_enabled: RadioState,
    classic_enabled: RadioState,
    invalid_packets: Vec<InvalidPacket>,
}

impl BluetoothChip {
    /// At most `MAX_INVALID_PACKETS` packets are kept.
    pub open spec fn wf(&self) -> bool {
        self.packets().len() <= MAX_INVALID_PACKETS
    }

    /// The state of the low energy radio.
    pub closed spec fn low_energy(&self) -> RadioState {
        self.low_energy_enabled
    }

    /// The state of the classic radio.
    pub closed spec fn classic(&self) -> RadioState {
        self.classic_enabled
    }

    /// The chip with the given radio states and the same invalid packets.
    pub closed spec fn with_states(&self, le: RadioState, classic: RadioState) -> Self {
        BluetoothChip {
            low_energy_enabled: le,
            classic_enabled: classic,
            invalid_packets: self.invalid_packets,
        }
    }

    /// The invalid packets kept, oldest first.
    pub closed spec fn packets(&self) -> Seq<InvalidPacket> {
        self.invalid_packets@
    }

    /// The chip with new radio states has those states and the same
    /// invalid packets.
    pub proof fn lemma_with_states(&self, le: RadioState, classic: RadioState)
        ensures
            self.with_states(le, classic).low_energy() == le,
            self.with_states(le, classic).classic() == classic,
            self.with_states(le, classic).packets() == self.packets(),
    {
    }

    /// A chip with both radios on and no invalid packet.
    pub fn new() -> (r: Self)
        ensures
            r.wf(),
            r.low_energy() == RadioState::On,
            r.classic() == RadioState::On,
            r.packets() == Seq::<InvalidPacket>::empty(),
    {
        BluetoothChip {
            low_energy_enabled: RadioState::On,
            classic_enabled: RadioState::On,
            invalid_packets: Vec::new(),
        }
    }

    /// Keeps a reported invalid packet, dropping the oldest one when
    /// `MAX_INVALID_PACKETS` are kept already.
    pub fn report_invalid_packet(&mut self, reason: i32, description: String, packet: Vec<u8>)
        requires
            old(self).wf(),
        ensures
            final(self).wf(),
            final(self).low_energy() == old(self).low_energy(),
            final(self).classic() == old(self).classic(),
            final(self).packets() == recent(
                old(self).packets().push(InvalidPacket { reason, description, packet }),
            ),
    {
        let ghost before = self.invalid_packets@;
        if self.invalid_packets.len() >= MAX_INVALID_PACKETS {
            self.invalid_packets.remove(0);
        }
        self.invalid_packets.push(InvalidPacket { reason, description, packet });
        proof {
            let all = before.push(InvalidPacket { reason, description, packet });
            assert(self.invalid_packets@ =~= recent(all));
        }
    }

    /// The state of the low energy radio.
    pub fn low_energy_state(&self) -> (r: RadioState)
        ensures
            r == self.low_energy(),
    {
        self.low_energy_enabled
    }

    /// The state of the classic radio.
    pub fn classic_state(&self) -> (r: RadioState)
        ensures
            r == self.classic(),
    {
        self.classic_enabled
    }

    /// How many invalid packets are kept.
    pub fn invalid_packet_count(&self) -> (r: usize)
        ensures
            r == self.packets().len(),
    {
        self.invalid_packets.len()
    }

    /// The kept invalid packet at `index`, oldest first.
    pub fn invalid_packet(&self, index: usize) -> (r: &InvalidPacket)
        requires
            index < self.packets().len(),
        ensures
            *r == self.packets()[index as int],
    {
        &self.invalid_packets[index]
    }
}


/// The chip takes the Bluetooth part of a patch (see `patched`), and after a
/// reset of the controller both radios are on; the invalid packets stay.
impl EmulatedChip for BluetoothChip {
    /// The states asked of the low energy and the classic radio, where the
    /// patch concerns Bluetooth at all.
    type Patch = Option<(Option<RadioState>, Option<RadioState>)>;
    /// What to do with the physical layer for each radio.
    type Outcome = (PhyChange, PhyChange);

    open spec fn patched(&self, patch: Self::Patch) -> (Self, Self::Outcome) {
        match patch {
            None => (*self, (PhyChange::Keep, PhyChange::Keep)),
            Some((le, classic)) => {
                let a = patched(self.low_energy(), le);
                let b = patched(self.classic(), classic);
                (self.with_states(a.0, b.0), (a.1, b.1))
            },
        }
    }

    open spec fn after_reset(&self) -> Self {
        self.with_states(RadioState::On, RadioState::On)
    }

    fn patch(&mut self, patch: &Self::Patch) -> (r: Self::Outcome) {
        match *patch {
            None => (PhyChange::Keep, PhyChange::Keep),
            Some((le, classic)) => {
                let a = patch_state(&mut self.low_energy_enabled, le);
                let b = patch_state(&mut self.classic_enabled, classic);
                (a, b)
            },
        }
    }

    fn reset(&mut self) {
        self.low_energy_enabled = RadioState::On;
        self.classic_enabled = RadioState::On;
    }
}

} // verus!
