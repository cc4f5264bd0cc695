[package]
name = "comms_dht"
version = "0.1.0"
edition = "2021"
publish = false

[dependencies]
chrono = { version = "0.4", default-features = false, features = ["clock", "std"] }
log = "0.4"
log4rs = "1"
tokio = { version = "1", default-features = false, features = ["sync", "rt", "time"] }
tower = { version = "0.4", default-features = false }
