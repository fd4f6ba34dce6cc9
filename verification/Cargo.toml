[package]
name = "gtp_controller"
version = "0.1.0"
edition = "2021"
publish = false

[dependencies]
sharded-slab = "0.1.7"
fastrand = "2"
tokio = { version = "1", features = ["time", "sync", "rt", "macros"] }
futures = "0.3"
tokio-tun = "*"
bin-proto = "*"
deku = "*"
