[package]
name = "videocaster"
version = "0.1.0"
edition = "2021"
publish = false

[dependencies]
percent-encoding = "*"
flate2 = "*"
tokio = { version = "*", features = ["fs", "io-util", "macros", "rt-multi-thread", "process"] }
rocket = { version = "*", features = ["json"] }
reqwest = { version = "*", default-features = false, features = ["json"] }
serde = { version = "*", features = ["derive"] }
anyhow = "*"
futures = "*"
dunce = "*"
dirs = "*"
directories-next = "*"
log = "*"
