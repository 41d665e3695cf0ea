[package]
name = "slot_protocol"
version = "0.1.0"
edition = "2021"
publish = false

[dependencies]
rmp = "=0.8.15"
anyhow = "=1.0.104"
pgrx = { version = "=0.12.9", features = ["pg17"] }
