//! The configuration of the access point daemon (hostapd) that the Wi-Fi
//! service runs, and the packet numbers it encrypts frames with.

use crate::text::push_str;
use vstd::prelude::*;

verus! {

/// Configuration entries as texts: each key with its value.
pub type ConfigEntries = Seq<(Seq<char>, Seq<char>)>;

/// The value of the key, or the empty text when the key is absent.
pub open spec fn config_get(es: ConfigEntries, key: Seq<char>) -> Seq<char>
    decreases es.len(),
{
    if es.len() == 0 {
        Seq::empty()
    } else if es.last().0 == key {
        es.last().1
    } else {
        config_get(es.drop_last(), key)
    }
}

/// The entries with the key set to the value: the entries of other keys,
/// in order, then the key with the value.
pub open spec fn config_set(es: ConfigEntries, key: Seq<char>, value: Seq<char>) -> ConfigEntries {
    es.filter(other_key(key)).push((key, value))
}

/// Whether an entry is of another key.
pub open spec fn other_key(key: Seq<char>) -> spec_fn((Seq<char>, Seq<char>)) -> bool {
    |e: (Seq<char>, Seq<char>)| e.0 != key
}

/// Setting a key gives it the value and leaves every other key's value.
pub proof fn lemma_config_set_get(es: ConfigEntries, key: Seq<char>, value: Seq<char>, other: Seq<char>)
    ensures
        config_get(config_set(es, key, value), key) == value,
        other != key ==> config_get(config_set(es, key, value), other) == config_get(es, other),
    decreases es.len(),
{
    let f = es.filter(other_key(key));
    assert(config_set(es, key, value).drop_last() =~= f);
    if other != key {
        lemma_filter_get(es, key, other);
    }
}

proof fn lemma_filter_get(es: ConfigEntries, key: Seq<char>, other: Seq<char>)
    requires
        other != key,
    ensures
        config_get(es.filter(other_key(key)), other) == config_get(es, other),
    decreases es.len(),
{
    reveal(Seq::filter);
    let pred = other_key(key);
    if es.len() > 0 {
        lemma_filter_get(es.drop_last(), key, other);
        if es.last().0 != key {
            assert(es.filter(pred).drop_last() =~= es.drop_last().filter(pred));
        }
    }
}

/// The entries that a new SSID and password give: the SSID, and with a
/// non-empty password, WPA2 with a pre-shared key and CCMP, and the
/// passphrase.
pub open spec fn with_ssid(es: ConfigEntries, ssid: Seq<char>, password: Seq<char>) -> ConfigEntries {
    let e1 = config_set(es, "ssid"@, ssid);
    if password.len() == 0 {
        e1
    } else {
        config_set(
            config_set(config_set(config_set(e1, "wpa"@, "2"@), "wpa_key_mgmt"@, "WPA-PSK"@), "rsn_pairwise"@, "CCMP"@),
            "wpa_passphrase"@,
            password,
        )
    }
}

/// The lines of the configuration file: `key=value` for each entry, in order.
pub open spec fn config_text(es: ConfigEntries) -> Seq<char>
    decreases es.len(),
{
    if es.len() == 0 {
        Seq::empty()
    } else {
        config_text(es.drop_last()) + es.last().0 + "="@ + es.last().1 + "\n"@
    }
}

/// The configuration of the access point daemon.
pub struct HostapdConfig {
    entries: Vec<(String, String)>,
}

impl View for HostapdConfig {
    type V = ConfigEntries;

    closed spec fn view(&self) -> ConfigEntries {
        self.entries@.map_values(|e: (String, String)| (e.0@, e.1@))
    }
}

impl HostapdConfig {
    /// The value of the key, or the empty text when the key is absent.
    pub fn get_config_val(&self, key: &str) -> (r: String)
        ensures
            r@ == config_get(self@, key@),
    {
        let ghost es = self@;
        let k = key.to_owned();
        let mut i: usize = self.entries.len();
        assert(es.take(es.len() as int) =~= es);
        while i > 0
            invariant
                es == self@,
                es.len() == self.entries@.len(),
                k@ == key@,
                i <= es.len(),
                config_get(es, key@) == config_get(es.take(i as int), key@),
            decreases i,
        {
            proof {
                assert(es.take(i as int).drop_last() =~= es.take(i - 1));
                assert(es.take(i as int).last() == es[i - 1]);
            }
            if self.entries[i - 1].0 == k {
                return self.entries[i - 1].1.clone();
            }
            i = i - 1;
        }
        String::new()
    }

    /// The configured SSID.
    pub fn get_ssid(&self) -> (r: String)
        ensures
            r@ == config_get(self@, "ssid"@),
    {
        self.get_config_val("ssid")
    }

    /// Sets the key to the value (see `config_set`).
    pub fn set(&mut self, key: &str, value: &str)
        ensures
            final(self)@ == config_set(old(self)@, key@, value@),
    {
        let ghost es = self@;
        let ghost pred = other_key(key@);
        let k = key.to_owned();
        let mut kept: Vec<(String, String)> = Vec::new();
        let mut i: usize = 0;
        while i < self.entries.len()
            invariant
                es == self@,
                es.len() == self.entries@.len(),
                k@ == key@,
                pred == other_key(key@),
                i <= es.len(),
                kept@.map_values(|e: (String, String)| (e.0@, e.1@)) == es.take(i as int).filter(pred),
            decreases es.len() - i,
        {
            proof {
                reveal(Seq::filter);
                assert(es.take(i + 1).drop_last() =~= es.take(i as int));
                assert(es.take(i + 1).last() == es[i as int]);
            }
            if !(self.entries[i].0 == k) {
                let e = (self.entries[i].0.clone(), self.entries[i].1.clone());
                let ghost before = kept@;
                kept.push(e);
                proof {
                    assert(kept@.map_values(|e: (String, String)| (e.0@, e.1@)) =~= before.map_values(
                        |e: (String, String)| (e.0@, e.1@),
                    ).push(es[i as int]));
                }
            }
            i = i + 1;
        }
        proof {
            assert(es.take(es.len() as int) =~= es);
        }
        let ghost before = kept@;
        kept.push((key.to_owned(), value.to_owned()));
        proof {
            assert(kept@.map_values(|e: (String, String)| (e.0@, e.1@)) =~= before.map_values(
                |e: (String, String)| (e.0@, e.1@),
            ).push((key@, value@)));
        }
        self.entries = kept;
    }

    fn push_entry(&mut self, key: &str, value: &str)
        ensures
            final(self)@ == old(self)@.push((key@, value@)),
    {
        self.entries.push((key.to_owned(), value.to_owned()));
        assert(self@ =~= old(self)@.push((key@, value@)));
    }

    /// The default configuration: the SSID `AndroidWifi` on interface
    /// `wlan1` with the virtio driver and the simulated BSSID, 802.11g on
    /// channel 8 in the US, and the daemon's usual timing and limits.
    pub fn new() -> (r: HostapdConfig)
        ensures
            r@ == seq![
                ("ssid"@, "AndroidWifi"@),
                ("interface"@, "wlan1"@),
                ("driver"@, "virtio_wifi"@),
                ("bssid"@, "00:13:10:85:fe:01"@),
                ("country_code"@, "US"@),
                ("hw_mode"@, "g"@),
                ("channel"@, "8"@),
                ("beacon_int"@, "1000"@),
                ("dtim_period"@, "2"@),
                ("max_num_sta"@, "255"@),
                ("rts_threshold"@, "2347"@),
                ("fragm_threshold"@, "2346"@),
                ("macaddr_acl"@, "0"@),
                ("auth_algs"@, "3"@),
                ("ignore_broadcast_ssid"@, "0"@),
                ("wmm_enabled"@, "0"@),
                ("ieee80211n"@, "1"@),
                ("eapol_key_index_workaround"@, "0"@),
            ],
    {
        let mut c = HostapdConfig { entries: Vec::new() };
        assert(c@ =~= Seq::<(Seq<char>, Seq<char>)>::empty());
        c.push_entry("ssid", "AndroidWifi");
        c.push_entry("interface", "wlan1");
        c.push_entry("driver", "virtio_wifi");
        c.push_entry("bssid", "00:13:10:85:fe:01");
        c.push_entry("country_code", "US");
        c.push_entry("hw_mode", "g");
        c.push_entry("channel", "8");
        c.push_entry("beacon_int", "1000");
        c.push_entry("dtim_period", "2");
        c.push_entry("max_num_sta", "255");
        c.push_entry("rts_threshold", "2347");
        c.push_entry("fragm_threshold", "2346");
        c.push_entry("macaddr_acl", "0");
        c.push_entry("auth_algs", "3");
        c.push_entry("ignore_broadcast_ssid", "0");
        c.push_entry("wmm_enabled", "0");
        c.push_entry("ieee80211n", "1");
        c.push_entry("eapol_key_index_workaround", "0");
        c
    }

    /// Reconfigures the SSID and password (see `with_ssid`). Fails for an
    /// empty SSID; gives `false`, changing nothing, when the SSID and the
    /// password are those configured, and `true` when the configuration
    /// changed and the daemon must reload it.
    pub fn set_ssid(&mut self, ssid: &str, password: &str) -> (r: Result<bool, String>)
        ensures
            ssid@.len() == 0 ==> (r matches Err(m) && m@ == "set_ssid must have a non-empty SSID"@)
                && final(self)@ == old(self)@,
            ssid@.len() > 0 && ssid@ == config_get(old(self)@, "ssid"@) && password@ == config_get(
                old(self)@,
                "wpa_passphrase"@,
            ) ==> r == Ok::<bool, String>(false) && final(self)@ == old(self)@,
            ssid@.len() > 0 && !(ssid@ == config_get(old(self)@, "ssid"@) && password@ == config_get(
                old(self)@,
                "wpa_passphrase"@,
            )) ==> r == Ok::<bool, String>(true) && final(self)@ == with_ssid(old(self)@, ssid@, password@),
    {
        let ssid_text = ssid.to_owned();
        if ssid.is_empty() {
            let mut m = String::new();
            push_str(&mut m, "set_ssid must have a non-empty SSID");
            return Err(m);
        }
        let current_ssid = self.get_ssid();
        let current_password = self.get_config_val("wpa_passphrase");
        let password_text = password.to_owned();
        if ssid_text == current_ssid && password_text == current_password {
            return Ok(false);
        }
        self.set("ssid", ssid);
        if !password.is_empty() {
            self.set("wpa", "2");
            self.set("wpa_key_mgmt", "WPA-PSK");
            self.set("rsn_pairwise", "CCMP");
            self.set("wpa_passphrase", password);
        }
        Ok(true)
    }

    /// The text of the configuration file (see `config_text`).
    pub fn config_file_text(&self) -> (r: String)
        ensures
            r@ == config_text(self@),
    {
        let ghost es = self@;
        let mut s = String::new();
        let mut i: usize = 0;
        while i < self.entries.len()
            invariant
                es == self@,
                es.len() == self.entries@.len(),
                i <= es.len(),
                s@ == config_text(es.take(i as int)),
            decreases es.len() - i,
        {
            proof {
                assert(es.take(i + 1).drop_last() =~= es.take(i as int));
            }
            push_str(&mut s, self.entries[i].0.as_str());
            push_str(&mut s, "=");
            push_str(&mut s, self.entries[i].1.as_str());
            push_str(&mut s, "\n");
            i = i + 1;
        }
        proof {
            assert(es.take(es.len() as int) =~= es);
        }
        s
    }
}

/// The six low bytes of a packet number, most significant first.
pub open spec fn pn_bytes(pn: i64) -> Seq<u8> {
    let v = pn as u64;
    seq![
        (v >> 40u64) as u8,
        (v >> 32u64) as u8,
        (v >> 24u64) as u8,
        (v >> 16u64) as u8,
        (v >> 8u64) as u8,
        v as u8,
    ]
}

/// The transmit packet numbers used for encryption: they count up from 1,
/// wrapping around.
pub struct PacketNumbers {
    tx_pn: i64,
}

impl PacketNumbers {
    /// The next packet number to hand out.
    pub closed spec fn next(&self) -> i64 {
        self.tx_pn
    }

    /// Packet numbers starting at 1.
    pub fn new() -> (r: PacketNumbers)
        ensures
            r.next() == 1,
    {
        PacketNumbers { tx_pn: 1 }
    }

    /// Hands out the next packet number as its six low bytes, most
    /// significant first.
    pub fn gen_packet_number(&mut self) -> (r: [u8; 6])
        ensures
            r@ == pn_bytes(old(self).next()),
            final(self).next() == (if old(self).next() == i64::MAX {
                i64::MIN
            } else {
                (old(self).next() + 1) as i64
            }),
    {
        let pn = self.tx_pn;
        self.tx_pn = self.tx_pn.wrapping_add(1);
        let v = pn as u64;
        let r = [
            (v >> 40u64) as u8,
            (v >> 32u64) as u8,
            (v >> 24u64) as u8,
            (v >> 16u64) as u8,
            (v >> 8u64) as u8,
            v as u8,
        ];
        assert(r@ =~= pn_bytes(pn));
        r
    }
}

} // verus!
