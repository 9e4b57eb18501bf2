[package]
name = "phone_verifier"
version = "0.1.0"
edition = "2021"
publish = false

[dependencies]
sp-core = "=43.0.0"
sp-crypto-hashing = "*"
tokio = { version = "=1.53.2", features = ["rt-multi-thread", "macros", "net", "io-util", "signal"] }
reqwest = { version = "=0.13.5", default-features = false, features = ["form", "json"] }
clap = "=4.6.7"
config = "=0.15.27"
serde = { version = "=1.0.229", features = ["derive"] }
log = "=0.4.34"
anyhow = "=1.0.104"
