use netsim::hostapd::{HostapdConfig, PacketNumbers};

#[test]
fn test_default_config() {
    let c = HostapdConfig::new();
    assert_eq!(c.get_ssid(), "AndroidWifi");
    assert_eq!(c.get_config_val("bssid"), "00:13:10:85:fe:01");
    assert_eq!(c.get_config_val("channel"), "8");
    assert_eq!(c.get_config_val("wpa_passphrase"), "");
    let text = c.config_file_text();
    assert!(text.starts_with("ssid=AndroidWifi\ninterface=wlan1\ndriver=virtio_wifi\n"));
    assert!(text.ends_with("eapol_key_index_workaround=0\n"));
    assert_eq!(text.lines().count(), 18);
}

#[test]
fn test_set_ssid_requires_a_name() {
    let mut c = HostapdConfig::new();
    assert_eq!(c.set_ssid("", "secret"), Err("set_ssid must have a non-empty SSID".to_string()));
    assert_eq!(c.get_ssid(), "AndroidWifi");
}

#[test]
fn test_set_ssid_with_password() {
    let mut c = HostapdConfig::new();
    assert_eq!(c.set_ssid("Home", "secret"), Ok(true));
    assert_eq!(c.get_ssid(), "Home");
    assert_eq!(c.get_config_val("wpa"), "2");
    assert_eq!(c.get_config_val("wpa_key_mgmt"), "WPA-PSK");
    assert_eq!(c.get_config_val("rsn_pairwise"), "CCMP");
    assert_eq!(c.get_config_val("wpa_passphrase"), "secret");
    // The same SSID and password change nothing.
    let before = c.config_file_text();
    assert_eq!(c.set_ssid("Home", "secret"), Ok(false));
    assert_eq!(c.config_file_text(), before);
}

#[test]
fn test_set_ssid_without_password() {
    let mut c = HostapdConfig::new();
    assert_eq!(c.set_ssid("Open", ""), Ok(true));
    assert_eq!(c.get_ssid(), "Open");
    assert_eq!(c.get_config_val("wpa"), "");
    // An unchanged SSID with no password configured is no change.
    assert_eq!(c.set_ssid("Open", ""), Ok(false));
}

#[test]
fn test_set_replaces_one_entry() {
    let mut c = HostapdConfig::new();
    c.set("channel", "6");
    c.set("channel", "11");
    assert_eq!(c.get_config_val("channel"), "11");
    let text = c.config_file_text();
    assert_eq!(text.matches("channel=").count(), 1);
    assert!(text.ends_with("channel=11\n"));
}

#[test]
fn test_packet_numbers() {
    let mut p = PacketNumbers::new();
    assert_eq!(p.gen_packet_number(), [0, 0, 0, 0, 0, 1]);
    assert_eq!(p.gen_packet_number(), [0, 0, 0, 0, 0, 2]);
}
