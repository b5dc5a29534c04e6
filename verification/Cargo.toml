[package]
name = "musicboom"
version = "0.1.0"
edition = "2021"
publish = false

[dependencies]
biquad = "0.4"
buttplug = { version = "7", default-features = false, features = ["client", "serialize-json", "websockets", "tokio-runtime"] }
clap = { version = "4", features = ["derive"] }
jack = "0.11"
tokio = { version = "1", features = ["full"] }
