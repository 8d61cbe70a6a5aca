[package]
name = "hls_rs"
version = "0.1.0"
edition = "2021"
publish = false

[dependencies]
clap = "2"
env_logger = "*"
failure = "0.1"
log = "0.4"
serde = "1"
serde_derive = "1"
serde_json = "1"
