[package]
name = "lanscanner"
version = "0.2.0"
edition = "2021"
publish = false

[dependencies]
ipnet = "2"
russh = "*"
sys-locale = "0.3"
tokio = { version = "1", features = ["rt-multi-thread", "net", "time", "sync", "macros"] }
tokio-util = "0.7"
