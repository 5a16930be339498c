//! Bluetooth beacons: their addresses, given as text, and when they
//! advertise.

use crate::text::{chars_of, parse_hex, parse_hex_range, push_str, remove_char};
use vstd::prelude::*;

verus! {

/// A 48-bit Bluetooth device address.
#[derive(Clone, Copy, PartialEq, Eq, Structural, Debug, Hash)]
pub struct Address(pub u64);

/// The largest value of a 48-bit address.
pub const ADDRESS_MAX: u64 = 0xffff_ffff_ffff;

/// Why an address text was refused.
#[derive(Clone, Copy, PartialEq, Eq, Structural, Debug)]
pub enum AddressError {
    /// The text without its colons is not a 64-bit hexadecimal number.
    InvalidHex,
    /// The number does not fit in six bytes.
    TooLarge,
}

impl Address {
    /// The address with the given value, or an error when it needs more
    /// than 48 bits.
    pub fn try_from_u64(value: u64) -> (r: Result<Address, AddressError>)
        ensures
            r == (if value <= ADDRESS_MAX {
                Ok::<Address, AddressError>(Address(value))
            } else {
                Err(AddressError::TooLarge)
            }),
    {
        if value <= ADDRESS_MAX {
            Ok(Address(value))
        } else {
            Err(AddressError::TooLarge)
        }
    }
}

/// The address that a text gives: the empty text gives address zero;
/// otherwise the colons are removed and the rest read as one base-16 number,
/// which must fit in 64 bits and then in 48.
pub open spec fn spec_parse_addr(s: Seq<char>) -> Result<u64, AddressError> {
    if s.len() == 0 {
        Ok(0)
    } else {
        match parse_hex(remove_char(s, ':'), u64::MAX as nat) {
            None => Err(AddressError::InvalidHex),
            Some(v) => if v > ADDRESS_MAX {
                Err(AddressError::TooLarge)
            } else {
                Ok(v as u64)
            },
        }
    }
}

/// The message that goes with an error.
pub open spec fn address_error_text(e: AddressError) -> Seq<char> {
    match e {
        AddressError::InvalidHex => "failed to parse address: invalid hex"@,
        AddressError::TooLarge => "failed to parse address: address must be smaller than 6 bytes"@,
    }
}

/// Parses a beacon address such as `be:ac:12:34:00:0f`.
pub fn parse_addr(addr: &str) -> (r: Result<Address, String>)
    ensures
        match spec_parse_addr(addr@) {
            Ok(v) => r == Ok::<Address, String>(Address(v)),
            Err(e) => r matches Err(m) && m@ == address_error_text(e),
        },
{
    match parse_address(addr) {
        Ok(a) => Ok(a),
        Err(e) => {
            let mut m = String::new();
            match e {
                AddressError::InvalidHex => push_str(&mut m, "failed to parse address: invalid hex"),
                AddressError::TooLarge => push_str(
                    &mut m,
                    "failed to parse address: address must be smaller than 6 bytes",
                ),
            }
            Err(m)
        },
    }
}

/// Parses a beacon address, with the reason of a refusal.
pub fn parse_address(addr: &str) -> (r: Result<Address, AddressError>)
    ensures
        match spec_parse_addr(addr@) {
            Ok(v) => r == Ok::<Address, AddressError>(Address(v)),
            Err(e) => r == Err::<Address, AddressError>(e),
        },
{
    let cs = chars_of(addr);
    if cs.len() == 0 {
        return Ok(Address(0));
    }
    let mut digits: Vec<char> = Vec::new();
    let mut i: usize = 0;
    while i < cs.len()
        invariant
            i <= cs@.len(),
            digits@ == remove_char(cs@.take(i as int), ':'),
        decreases cs@.len() - i,
    {
        let ghost t = cs@.take(i + 1);
        assert(t.drop_last() =~= cs@.take(i as int));
        if cs[i] != ':' {
            digits.push(cs[i]);
        }
        i = i + 1;
    }
    assert(cs@.take(cs@.len() as int) =~= cs@);
    assert(digits@.subrange(0, digits@.len() as int) =~= digits@);
    match parse_hex_range(&digits, 0, digits.len(), u64::MAX) {
        None => Err(AddressError::InvalidHex),
        Some(v) => Address::try_from_u64(v),
    }
}


/// When a beacon started advertising and when it last advertised, in
/// milliseconds on the caller's monotonic clock.
#[derive(Clone, Copy, PartialEq, Eq, Structural, Debug)]
pub struct AdvertiseTimer {
    pub advertise_start: Option<u64>,
    pub advertise_last: Option<u64>,
}

/// The time elapsed from `since` to `now`; none where the clock did not
/// move forward.
pub open spec fn elapsed(now: u64, since: u64) -> u64 {
    if now >= since {
        (now - since) as u64
    } else {
        0
    }
}

/// Whether a beacon advertises at `now`: not once its advertising has
/// lasted longer than the timeout, where it has one, and not again before
/// more than the interval has passed since it last did.
pub open spec fn advertises(t: AdvertiseTimer, now: u64, timeout: Option<u64>, interval: u64) -> bool {
    let timed_out = match (t.advertise_start, timeout) {
        (Some(start), Some(limit)) => elapsed(now, start) > limit,
        _ => false,
    };
    let too_soon = match t.advertise_last {
        Some(last) => elapsed(now, last) <= interval,
        None => false,
    };
    !timed_out && !too_soon
}

impl AdvertiseTimer {
    /// A beacon that has not advertised yet.
    pub fn new() -> (r: Self)
        ensures
            r.advertise_start is None,
            r.advertise_last is None,
    {
        AdvertiseTimer { advertise_start: None, advertise_last: None }
    }

    /// One tick of the controller's clock at `now`: returns whether the
    /// beacon advertises (see `advertises`). Its first advertisement starts
    /// the advertising; each one is the last until the next.
    pub fn tick(&mut self, now: u64, timeout: Option<u64>, interval: u64) -> (r: bool)
        ensures
            r == advertises(*old(self), now, timeout, interval),
            r ==> final(self).advertise_last == Some(now),
            r ==> final(self).advertise_start == (match old(self).advertise_last {
                Some(_) => old(self).advertise_start,
                None => Some(now),
            }),
            !r ==> *final(self) == *old(self),
    {
        if let (Some(start), Some(limit)) = (self.advertise_start, timeout) {
            let gone = if now >= start { now - start } else { 0 };
            if gone > limit {
                return false;
            }
        }
        match self.advertise_last {
            Some(last) => {
                let gone = if now >= last { now - last } else { 0 };
                if gone <= interval {
                    return false;
                }
            },
            None => {
                self.advertise_start = Some(now);
            },
        }
        self.advertise_last = Some(now);
        true
    }
}

/// A beacon advertises at most once per interval: after it advertised at
/// `now`, it does not again until more than the interval has passed.
pub proof fn lemma_once_per_interval(
    after: AdvertiseTimer,
    now: u64,
    later: u64,
    timeout: Option<u64>,
    interval: u64,
)
    requires
        after.advertise_last == Some(now),
        now <= later,
        later - now <= interval,
    ensures
        !advertises(after, later, timeout, interval),
{
}

/// A beacon whose advertising has lasted longer than its timeout does not
/// advertise.
pub proof fn lemma_silent_after_timeout(t: AdvertiseTimer, now: u64, limit: u64, interval: u64)
    requires
        t.advertise_start matches Some(start) && elapsed(now, start) > limit,
    ensures
        !advertises(t, now, Some(limit), interval),
{
}

} // verus!
