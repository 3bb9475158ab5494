[package]
name = "bldc_driver"
version = "0.1.0"
edition = "2021"
publish = false

[dependencies]
heapless = "0.8"
embassy-sync = "*"
embassy-time = "*"
embedded-storage-async = "*"
log = "0.4"
env_logger = { version = "*", default-features = false }
