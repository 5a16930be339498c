//! A verified model of the packet formats, registries and small state
//! machines of a network simulator for virtual radios (Wi-Fi, Bluetooth).

pub mod error;
pub mod wire;
pub mod text;
pub mod ieee80211;
pub mod hwsim;
pub mod frame;
pub mod medium;
pub mod pcap;
pub mod beacon;
pub mod time_display;
pub mod cli;
pub mod grpc_client;
pub mod response;
pub mod timers;
pub mod hostapd;
pub mod transport;
pub mod startup;
pub mod shutdown;
pub mod display;
pub mod device_list;
pub mod cli_output;
pub mod devices;
pub mod bluetooth;
pub mod config;
pub mod chip;
pub mod device_manager;
pub mod routes;
pub mod session;
pub mod service;
