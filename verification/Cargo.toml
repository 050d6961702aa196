[package]
name = "mqttrust"
version = "1.0.0"
edition = "2021"
publish = false

[dependencies]
embassy-futures = "*"
embassy-sync = "*"
embassy-time = "*"
embedded-io-async = "*"
embedded-nal-async = "*"
heapless = "0.9"
mqttrs = "*"
