[package]
name = "rumix"
version = "0.1.0"
edition = "2021"
publish = false

[dependencies]
flatbuffers = "*"
flume = "*"
tokio = { version = "1", features = ["net", "rt-multi-thread", "macros"] }
