[package]
name = "nfsserve"
version = "0.1.0"
edition = "2021"
publish = false

[dependencies]
byteorder = "1"
anyhow = "1"
async-trait = "0.1"
tracing = "0.1"
tokio = { version = "1", default-features = false, features = ["net", "io-util", "sync", "rt", "rt-multi-thread"] }
