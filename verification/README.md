# netsim

A verified library for the logic of a network simulator that connects
emulated Wi-Fi and Bluetooth radios: packet codecs, the wireless medium that
delivers frames between stations, timers, capture files and small
configuration state. Verus checks the functions in `src/` against their
contracts, apart from the trusted items listed below (the hand-off of a
streamed chunk to an application's handler states nothing of what the
handler does); `app/` holds the command line and the I/O around the library.

## Trusted items

These contracts are believed, not proved; each states what the standard
library or chrono documents of the call it wraps.

- `String::push` (`src/text.rs`): an `assume_specification` saying that
  the character is appended.
- `instant_now`, `duration_as_millis`, `TimerManager::get_elapsed` and the
  declared type `Instant` (`src/timers.rs`): the clock is read and a
  duration converted; nothing is claimed of which time is read.
- `to_uppercase` with its named result `uppercase` (`src/response.rs`):
  `str::to_uppercase`, named since the Unicode mapping is long.
- `chrono_utc_fields` (`src/time_display.rs`): chrono's calendar fields
  of a Unix timestamp, claimed equal to the proleptic Gregorian date that
  `utc_datetime` spells out.
- `patterns_debug` with its named result `debug_list`
  (`src/cli_output.rs`): the `Debug` text of a list of strings.

## Layout

- `src/wire.rs`, `src/text.rs`: little-endian integers, hexadecimal and
  decimal text, splitting.
- `src/ieee80211.rs`: MAC addresses and 802.11 frame headers (decode, encode,
  address rewriting), with round-trip laws.
- `src/hwsim.rs`: netlink attributes of the mac80211_hwsim interface and the
  hwsim messages that carry them; the attribute-set codec law.
- `src/frame.rs`, `src/medium.rs`: the Frame command and the wireless medium
  (client and station registry, delivery between stations, broadcast,
  acknowledgements, packets from the access point).
- `src/timers.rs`: the timers of the user-mode network stack, kept in a
  hash map by key.
- `src/hostapd.rs`: the access point daemon's configuration and packet numbers.
- `src/device_manager.rs`: the device registry, kept in identifier order
  (devices found by transport identifier or created, chips attached and
  detached, devices removed with their last chip).
- `src/chip.rs`, `src/bluetooth.rs`, `src/session.rs`: the chip registry, the
  radio state and invalid-packet record of an emulated Bluetooth chip, and
  the session statistics kept from device events.
- `src/display.rs`, `src/device_list.rs`, `src/cli_output.rs`: the text
  that the command line prints for chips, devices, captures and responses.
- `src/routes.rs`, `src/config.rs`, `src/transport.rs`: the routing of the
  daemon's HTTP requests, the merging of command-line flags into its
  configuration, and the chips that a file descriptor startup description
  asks for.
- `src/pcap.rs`, `src/time_display.rs`, `src/beacon.rs`, `src/response.rs`,
  `src/cli.rs` and the smaller modules: capture files, timestamps, beacon
  addresses, capture filtering and the command line's types.
- `tests/`: tests on concrete values, run against the compiled library.
- `app/`: the command line parser, the JSON reading of the startup
  description, the threads and the I/O adapters.
