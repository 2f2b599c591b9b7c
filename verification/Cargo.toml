[package]
name = "serial_modbus"
version = "0.1.0"
edition = "2021"
publish = false

[dependencies]
crc = "3"
anyhow = "1"
log = "0.4"
futures-util = "0.3"
tokio = { version = "1", features = ["rt-multi-thread", "macros", "sync", "time", "io-util"] }
tokio-serial = "5"
tokio-util = "0.7"
csv = "1"
serde = { version = "1", features = ["derive"] }
