//! Errors of the packet codecs and of the frame handling built on them.

use vstd::prelude::*;

verus! {

/// Why a packet could not be decoded, encoded or handled.
#[derive(Clone, Copy, PartialEq, Eq, Structural, Debug)]
pub enum PacketError {
    /// The input ends before the packet does.
    TooShort,
    /// A field holds a value wider than the field.
    FieldOutOfRange,
    /// An enumerated field holds a value with no meaning.
    UnknownValue,
    /// A length field is smaller than the header it covers.
    InvalidLength,
    /// An 802.11 frame of another addressing kind than the operation needs.
    UnexpectedFrameKind { from_ds: u8, to_ds: u8 },
    /// A netlink attribute of a type that hwsim messages do not carry.
    UnknownAttribute { nla_type: u16 },
    /// A required hwsim attribute is absent.
    MissingAttribute,
    /// A hwsim message of another command than the operation needs.
    UnexpectedCommand,
    /// No client has the identifier.
    UnknownClient,
    /// No station has the address.
    UnknownStation,
}

} // verus!
