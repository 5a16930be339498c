//! The client's list of packet captures, and the patterns that select among
//! them: a capture is kept when every pattern, in capitals, occurs in its
//! identifier, in its device's name in capitals, or in its chip kind.

use crate::text::{chars_of, push_signed, push_str, signed_decimal};
use crate::display::State;
use vstd::prelude::*;

verus! {

/// The kind of radio of a chip.
#[derive(Clone, Copy, Debug, PartialEq, Eq, Structural)]
pub enum ChipKind {
    Unspecified,
    Bluetooth,
    Wifi,
    Uwb,
    BluetoothBeacon,
}

impl ChipKind {
    /// The kind's name, in capitals.
    pub open spec fn name(self) -> Seq<char> {
        match self {
            ChipKind::Unspecified => "UNSPECIFIED"@,
            ChipKind::Bluetooth => "BLUETOOTH"@,
            ChipKind::Wifi => "WIFI"@,
            ChipKind::Uwb => "UWB"@,
            ChipKind::BluetoothBeacon => "BLUETOOTH_BEACON"@,
        }
    }

    /// The kind's name, in capitals, as the capture list prints it.
    pub fn to_string(&self) -> (r: String)
        ensures
            r@ == self.name(),
    {
        let mut s = String::new();
        match self {
            ChipKind::Unspecified => push_str(&mut s, "UNSPECIFIED"),
            ChipKind::Bluetooth => push_str(&mut s, "BLUETOOTH"),
            ChipKind::Wifi => push_str(&mut s, "WIFI"),
            ChipKind::Uwb => push_str(&mut s, "UWB"),
            ChipKind::BluetoothBeacon => push_str(&mut s, "BLUETOOTH_BEACON"),
        }
        assert(s@ =~= self.name());
        s
    }
}

/// A packet capture as the capture list shows it.
#[derive(Debug)]
pub struct PcapInfo {
    pub id: i32,
    pub chip_kind: ChipKind,
    pub device_name: String,
    /// Whether the capture is on.
    pub state: State,
    /// The bytes captured.
    pub size: u64,
}

/// The uppercase form of a text, by the Unicode case mapping.
pub uninterp spec fn uppercase(s: Seq<char>) -> Seq<char>;

/// `str::to_uppercase`: the text in capitals, by the Unicode case mapping.
/// Nothing is stated of the mapping itself: the result is the name
/// `uppercase` applied to the text.
#[verifier::external_body]
fn to_uppercase(s: &str) -> (r: String)
    ensures
        r@ == uppercase(s@),
{
    s.to_uppercase()
}

/// `n` occurs in `h` as a run of consecutive characters.
pub open spec fn has_substring(h: Seq<char>, n: Seq<char>) -> bool {
    exists|i: int| 0 <= i && i + n.len() <= h.len() && #[trigger] h.subrange(i, i + n.len()) == n
}

/// Whether `n` occurs in `h` as a run of consecutive characters.
pub(crate) fn contains_chars(h: &Vec<char>, n: &Vec<char>) -> (r: bool)
    ensures
        r == has_substring(h@, n@),
{
    if n.len() > h.len() {
        return false;
    }
    if n.len() == 0 {
        assert(h@.subrange(0int, 0int + n@.len()) =~= n@);
        return true;
    }
    let hl = h.len();
    let last = hl - n.len();
    let mut i: usize = 0;
    while i <= last
        invariant
            last == h@.len() - n@.len(),
            hl == h@.len(),
            n@.len() <= h@.len(),
            n@.len() >= 1,
            i <= last + 1,
            forall|k: int| 0 <= k < i ==> #[trigger] h@.subrange(k, k + n@.len()) != n@,
        decreases last + 1 - i,
    {
        let mut j: usize = 0;
        let mut same = true;
        while j < n.len()
            invariant
                i <= last,
                hl == h@.len(),
                last == h@.len() - n@.len(),
                n@.len() <= h@.len(),
                j <= n@.len(),
                same <==> (forall|k: int| 0 <= k < j ==> h@[i + k] == n@[k]),
            decreases n@.len() - j,
        {
            assert(i + j < h@.len());
            if h[i + j] != n[j] {
                same = false;
            }
            j = j + 1;
        }
        if same {
            assert(h@.subrange(i as int, i + n@.len()) =~= n@);
            return true;
        }
        proof {
            let k0 = choose|k: int| 0 <= k < n@.len() && h@[i + k] != n@[k];
            assert(h@.subrange(i as int, i + n@.len())[k0] != n@[k0]);
        }
        i = i + 1;
    }
    proof {
        assert forall|k: int| 0 <= k && k + n@.len() <= h@.len() implies #[trigger] h@.subrange(k, k + n@.len()) != n@ by {
            assert(k < i);
        }
    }
    false
}

/// The pattern, in capitals, occurs in the capture's identifier, in its
/// device's name in capitals, or in its chip kind's name.
pub open spec fn pcap_matches(p: PcapInfo, key: Seq<char>) -> bool {
    let k = uppercase(key);
    ||| has_substring(signed_decimal(p.id as int), k)
    ||| has_substring(uppercase(p.device_name@), k)
    ||| has_substring(p.chip_kind.name(), k)
}

/// The texts of the patterns.
pub open spec fn key_texts(keys: Seq<String>) -> Seq<Seq<char>> {
    keys.map_values(|k: String| k@)
}

/// Every pattern matches the capture.
pub open spec fn matches_all(p: PcapInfo, keys: Seq<Seq<char>>) -> bool {
    forall|i: int| 0 <= i < keys.len() ==> pcap_matches(p, #[trigger] keys[i])
}

/// Whether every pattern matches the capture.
fn pcap_matches_all(p: &PcapInfo, keys: &[String]) -> (r: bool)
    ensures
        r == matches_all(*p, key_texts(keys@)),
{
    let mut id_text = String::new();
    push_signed(&mut id_text, p.id);
    let id_chars = chars_of(id_text.as_str());
    let name_up = to_uppercase(p.device_name.as_str());
    let name_chars = chars_of(name_up.as_str());
    let kind_text = p.chip_kind.to_string();
    let kind_chars = chars_of(kind_text.as_str());
    assert(id_chars@ =~= signed_decimal(p.id as int));
    let ghost ks = key_texts(keys@);
    let mut i: usize = 0;
    while i < keys.len()
        invariant
            ks == key_texts(keys@),
            ks.len() == keys@.len(),
            i <= keys@.len(),
            id_chars@ == signed_decimal(p.id as int),
            name_chars@ == uppercase(p.device_name@),
            kind_chars@ == p.chip_kind.name(),
            forall|j: int| 0 <= j < i ==> pcap_matches(*p, #[trigger] ks[j]),
        decreases keys@.len() - i,
    {
        let key_up = to_uppercase(keys[i].as_str());
        let key_chars = chars_of(key_up.as_str());
        assert(ks[i as int] == keys@[i as int]@);
        if !(contains_chars(&id_chars, &key_chars) || contains_chars(&name_chars, &key_chars) || contains_chars(&kind_chars, &key_chars)) {
            assert(!pcap_matches(*p, ks[i as int]));
            return false;
        }
        i = i + 1;
    }
    true
}

/// Keeps, in order, the captures that every pattern matches.
pub fn filter_pcaps(pcaps: &mut Vec<PcapInfo>, keys: &[String])
    ensures
        final(pcaps)@ == old(pcaps)@.filter(|p: PcapInfo| matches_all(p, key_texts(keys@))),
{
    let ghost ps = pcaps@;
    let ghost pred = |p: PcapInfo| matches_all(p, key_texts(keys@));
    let mut i: usize = 0;
    let ghost mut j: int = 0;
    proof {
        reveal(Seq::filter);
        assert(ps.take(0) =~= Seq::<PcapInfo>::empty());
        assert(pcaps@.take(0) =~= Seq::<PcapInfo>::empty());
        assert(pcaps@.skip(0) =~= ps.skip(0));
    }
    while i < pcaps.len()
        invariant
            pred == (|p: PcapInfo| matches_all(p, key_texts(keys@))),
            0 <= j <= ps.len(),
            i <= pcaps@.len(),
            pcaps@.take(i as int) == ps.take(j).filter(pred),
            pcaps@.skip(i as int) == ps.skip(j),
        decreases pcaps@.len() - i,
    {
        proof {
            reveal(Seq::filter);
            assert(pcaps@.skip(i as int).len() == ps.skip(j).len());
            assert(j < ps.len());
            assert(ps.take(j + 1).drop_last() =~= ps.take(j));
            assert(pcaps@[i as int] == ps.skip(j)[0]);
            assert(ps.take(j + 1).last() == ps[j]);
        }
        let ghost before = pcaps@;
        if pcap_matches_all(&pcaps[i], keys) {
            proof {
                assert(pcaps@.take(i + 1) =~= pcaps@.take(i as int).push(pcaps@[i as int]));
                assert(pcaps@.skip(i + 1) =~= pcaps@.skip(i as int).skip(1));
                assert(ps.skip(j + 1) =~= ps.skip(j).skip(1));
            }
            i = i + 1;
        } else {
            pcaps.remove(i);
            proof {
                assert(pcaps@.take(i as int) =~= before.take(i as int));
                assert(pcaps@.skip(i as int) =~= before.skip(i + 1));
                assert(before.skip(i + 1) =~= before.skip(i as int).skip(1));
                assert(ps.skip(j + 1) =~= ps.skip(j).skip(1));
            }
        }
        proof {
            j = j + 1;
        }
    }
    proof {
        assert(pcaps@.skip(i as int).len() == 0);
        assert(ps.skip(j).len() == 0);
        assert(j == ps.len());
        assert(ps.take(j) =~= ps);
        assert(pcaps@.take(i as int) =~= pcaps@);
    }
}

} // verus!
