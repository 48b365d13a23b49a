[package]
name = "v5_serial"
version = "0.1.0"
edition = "2021"
publish = false

[dependencies]
btleplug = "=0.11.8"
chrono = { version = "=0.4.45", default-features = false, features = ["now"] }
log = "0.4"
thiserror = "=1.0.69"
tokio-serial = { version = "=5.5.0", default-features = false }
