[package]
name = "zserial"
version = "0.1.0"
edition = "2021"
publish = false

[dependencies]
clap = { version = "4", features = ["derive"] }
tokio = { version = "1", features = ["io-util", "macros", "rt-multi-thread", "signal", "time"] }
tokio-serial = "5"
