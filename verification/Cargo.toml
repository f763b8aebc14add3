[package]
name = "shielded_sync"
version = "0.1.0"
edition = "2021"
publish = false

[dependencies]
flume = { version = "0.11", default-features = false }
borsh = "1"
data-encoding = "2"
rand_core = "0.6"
thiserror = "1"
tokio = { version = "1", features = ["sync", "rt"] }
async-trait = "0.1"
