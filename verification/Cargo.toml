[package]
name = "dat_store"
version = "0.1.0"
edition = "2021"
publish = false

[dependencies]
aes = "0.7"
backtrace = "0.3"
block-modes = "0.8"
byteorder = "1"
chrono = "0.4"
colored = "2"
lazy_static = "1"
log = "0.4"
public-ip-address = "*"
serde = { version = "1", features = ["derive"] }
tokio = { version = "1", features = ["full"] }
warp = "0.3"
