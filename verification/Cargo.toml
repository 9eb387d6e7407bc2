[package]
name = "libafl_cc"
version = "0.1.0"
edition = "2021"
publish = false

[dependencies]
anyhow = "=1.0.104"
clap = { version = "=4.6.7", features = ["string"] }
serde = { version = "=1.0.229", features = ["derive"] }
toml = "=1.1.7"
