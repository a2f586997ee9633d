[package]
name = "stomp_rs"
version = "0.1.0"
edition = "2021"
publish = false

[dependencies]
uuid = { version = "1", features = ["v4"] }
tokio = { version = "1", features = ["net", "sync", "time", "rt", "rt-multi-thread", "macros", "io-util"] }
async-trait = "0.1"
log = "0.4"
