[package]
name = "healthcheck"
version = "0.1.0"
edition = "2021"
publish = false

[dependencies]
regex = "*"
time = { version = "0.3", features = ["serde-well-known"] }
async-process = "*"
async-trait = "*"
clap = { version = "4", features = ["derive"] }
futures = "*"
log = "*"
reqwest = { version = "*", default-features = false, features = ["json"] }
serde = { version = "*", features = ["derive"] }
serde_json = "*"
serde_with = "*"
simple-eyre = "*"
std-logger = "*"
tokio = { version = "1", features = ["rt-multi-thread", "time", "sync", "macros", "io-util"] }
trust-dns-resolver = "*"
