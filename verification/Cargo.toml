[package]
name = "netsim"
version = "0.1.0"
edition = "2021"
publish = false

[dependencies]
chrono = { version = "=0.4.45", default-features = false, features = ["alloc"] }
clap = { version = "=4.6.7", features = ["derive"] }
serde = { version = "1", features = ["derive"] }
serde_json = "1"
