[package]
name = "data_server"
version = "0.1.0"
edition = "2021"
publish = false

[dependencies]
anyhow = "1"
chrono = "0.4"
crc = "3"
nmea = "*"
nng = "*"
rmp-serde = "*"
rusqlite = { version = "*", features = ["bundled"] }
serde = { version = "1", features = ["derive"] }
serialport = "*"
spidev = "*"
toml = "*"
