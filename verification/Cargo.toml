[package]
name = "openlist_core"
version = "0.1.0"
edition = "2021"
publish = false

[dependencies]
uuid = { version = "*", features = ["v4"] }
encoding_rs = "*"
serde_json = "*"
anyhow = "*"
parking_lot = "*"
once_cell = "*"
