[package]
name = "double_buffered_io"
version = "0.1.0"
edition = "2021"
publish = false

[dependencies]
tokio = { version = "1", features = ["full"] }
tokio-serial = "5.4"
mio-serial = "5.0"
async-trait = "0.1"
thiserror = "1.0"
log = "0.4"
env_logger = "0.11"
chrono = "0.4"
crossbeam-channel = "0.5"
parking_lot = "0.12"
