use netsim::config::{disambiguate_args, BluetoothConfig, CaptureConfig, Config, NetsimdArgs};

fn flags(pcap: bool, disable_address_reuse: bool, test_beacons: bool, no_test_beacons: bool) -> NetsimdArgs {
    NetsimdArgs { pcap, disable_address_reuse, test_beacons, no_test_beacons }
}

#[test]
fn test_disambiguate_empty_config() {
    let mut config = Config { capture: None, bluetooth: None };
    disambiguate_args(&flags(false, false, false, false), &mut config, false);
    assert_eq!(config.capture, None);
    assert_eq!(
        config.bluetooth,
        Some(BluetoothConfig { disable_address_reuse: None, test_beacons: Some(false) })
    );
    let mut config = Config { capture: None, bluetooth: None };
    disambiguate_args(&flags(false, false, false, false), &mut config, true);
    assert_eq!(config.bluetooth.unwrap().test_beacons, Some(true));
}

#[test]
fn test_disambiguate_flags_override() {
    let mut config = Config {
        capture: Some(CaptureConfig { enabled: Some(false) }),
        bluetooth: Some(BluetoothConfig { disable_address_reuse: Some(false), test_beacons: Some(true) }),
    };
    disambiguate_args(&flags(true, true, false, true), &mut config, true);
    assert_eq!(config.capture, Some(CaptureConfig { enabled: Some(true) }));
    assert_eq!(
        config.bluetooth,
        Some(BluetoothConfig { disable_address_reuse: Some(true), test_beacons: Some(false) })
    );
}

#[test]
fn test_disambiguate_keeps_config() {
    let mut config = Config {
        capture: Some(CaptureConfig { enabled: Some(false) }),
        bluetooth: Some(BluetoothConfig { disable_address_reuse: Some(false), test_beacons: Some(false) }),
    };
    disambiguate_args(&flags(false, false, false, false), &mut config, true);
    assert_eq!(config.capture, Some(CaptureConfig { enabled: Some(false) }));
    assert_eq!(
        config.bluetooth,
        Some(BluetoothConfig { disable_address_reuse: Some(false), test_beacons: Some(false) })
    );
    disambiguate_args(&flags(false, false, true, false), &mut config, false);
    assert_eq!(config.bluetooth.unwrap().test_beacons, Some(true));
}

#[test]
fn test_disambiguate_twice_changes_nothing() {
    for pcap in [false, true] {
        for reuse in [false, true] {
            for (on, off) in [(false, false), (true, false), (false, true)] {
                let args = flags(pcap, reuse, on, off);
                let mut once = Config { capture: None, bluetooth: None };
                disambiguate_args(&args, &mut once, true);
                let mut twice = once;
                disambiguate_args(&args, &mut twice, true);
                assert_eq!(once, twice);
            }
        }
    }
}
