[package]
name = "tardy"
version = "0.1.0"
edition = "2021"
publish = false

[dependencies]
csv = "1"
rand = "0.8"
names = "0.14"
convert_case = "0.6"
tokio = { version = "1", features = ["rt-multi-thread", "sync", "time", "macros"] }
