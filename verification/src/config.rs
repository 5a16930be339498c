//! The parts of the daemon's configuration that its command line can
//! override, and how the two are merged.

use vstd::prelude::*;

verus! {

/// Packet capture settings.
#[derive(Clone, Copy, Debug, PartialEq, Eq, Structural)]
pub struct CaptureConfig {
    /// Whether capture is on for new chips; unset means the default.
    pub enabled: Option<bool>,
}

/// Bluetooth settings.
#[derive(Clone, Copy, Debug, PartialEq, Eq, Structural)]
pub struct BluetoothConfig {
    /// Whether the controller must not reuse addresses.
    pub disable_address_reuse: Option<bool>,
    /// Whether the test beacons are created at start.
    pub test_beacons: Option<bool>,
}

/// The daemon's configuration, as read from its file.
#[derive(Clone, Copy, Debug, PartialEq, Eq, Structural)]
pub struct Config {
    pub capture: Option<CaptureConfig>,
    pub bluetooth: Option<BluetoothConfig>,
}

/// The daemon's command-line flags that override its configuration.
#[derive(Clone, Copy, Debug, PartialEq, Eq, Structural)]
pub struct NetsimdArgs {
    /// Turn packet capture on.
    pub pcap: bool,
    /// Forbid address reuse in the Bluetooth controller.
    pub disable_address_reuse: bool,
    /// Create the test beacons.
    pub test_beacons: bool,
    /// Do not create the test beacons.
    pub no_test_beacons: bool,
}

/// Whether test beacons are created: as the flags say where one of them is
/// given, else as the configuration says, else the build's default.
pub open spec fn test_beacons_setting(
    args: NetsimdArgs,
    configured: Option<bool>,
    default_on: bool,
) -> bool {
    if args.test_beacons {
        true
    } else if args.no_test_beacons {
        false
    } else {
        match configured {
            Some(b) => b,
            None => default_on,
        }
    }
}

/// The Bluetooth settings of a configuration; all unset where it has none.
pub open spec fn bluetooth_of(config: Config) -> BluetoothConfig {
    match config.bluetooth {
        Some(bt) => bt,
        None => BluetoothConfig { disable_address_reuse: None, test_beacons: None },
    }
}

/// The configuration with the flags merged in: the capture flag turns
/// capture on, keeping it as configured otherwise; the Bluetooth settings
/// are always present, with address reuse forbidden where the flag asks
/// it, and the test beacon setting decided (see `test_beacons_setting`).
pub open spec fn merged(args: NetsimdArgs, config: Config, default_test_beacons: bool) -> Config {
    let bt = bluetooth_of(config);
    Config {
        capture: if args.pcap {
            Some(CaptureConfig { enabled: Some(true) })
        } else {
            config.capture
        },
        bluetooth: Some(
            BluetoothConfig {
                disable_address_reuse: if args.disable_address_reuse {
                    Some(true)
                } else {
                    bt.disable_address_reuse
                },
                test_beacons: Some(
                    test_beacons_setting(args, bt.test_beacons, default_test_beacons),
                ),
            },
        ),
    }
}

/// Merging the same flags a second time changes nothing.
pub proof fn lemma_merged_idempotent(args: NetsimdArgs, config: Config, default_test_beacons: bool)
    ensures
        merged(args, merged(args, config, default_test_beacons), default_test_beacons) == merged(
            args,
            config,
            default_test_beacons,
        ),
{
}

/// Merges the flags into the configuration (see `merged`);
/// `default_test_beacons` is the build's default. The two test beacon
/// flags together are a contradiction, refused before this is called.
pub fn disambiguate_args(args: &NetsimdArgs, config: &mut Config, default_test_beacons: bool)
    requires
        !(args.test_beacons && args.no_test_beacons),
    ensures
        *final(config) == merged(*args, *old(config), default_test_beacons),
{
    if args.pcap {
        match config.capture {
            Some(capture) => {
                let mut capture = capture;
                capture.enabled = Some(true);
                config.capture = Some(capture);
            },
            None => {
                config.capture = Some(CaptureConfig { enabled: Some(true) });
            },
        }
    }
    let mut bt = match config.bluetooth {
        Some(existing) => existing,
        None => BluetoothConfig { disable_address_reuse: None, test_beacons: None },
    };
    if args.disable_address_reuse {
        bt.disable_address_reuse = Some(true);
    }
    bt.test_beacons = match (args.test_beacons, args.no_test_beacons) {
        (true, _) => Some(true),
        (false, true) => Some(false),
        (false, false) => match bt.test_beacons {
            Some(test_beacons) => Some(test_beacons),
            None => Some(default_test_beacons),
        },
    };
    config.bluetooth = Some(bt);
}

} // verus!
