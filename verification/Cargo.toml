[package]
name = "tikv_client"
version = "0.4.0"
edition = "2021"
publish = false

[dependencies]
async-recursion = "1"
async-trait = "0.1"
futures = "0.3"
glob = "0.3"
log = "0.4"
rand = "0.8"
semver = "1"
serde = { version = "1", features = ["derive"] }
take_mut = "0.2"
thiserror = "1"
tokio = { version = "1", features = ["macros", "rt-multi-thread", "sync", "time"] }
tonic = "0.10"
tonic-build = "0.10"
