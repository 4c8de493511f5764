[package]
name = "sandwich_core"
version = "0.1.0"
edition = "2021"
publish = false

[dependencies]
anyhow = "1"
async-trait = "0.1"
chrono = "0.4"
colored = "2"
ethers = { version = "2", default-features = false }
fern = { version = "0.6", features = ["colored"] }
futures = "0.3"
indoc = "2"
log = "0.4"
tokio = { version = "1", features = ["rt"] }
