[package]
name = "celeborn-client"
version = "0.1.0"
edition = "2021"
publish = false

[dependencies]
async-trait = "0.1"
bytes = "1"
dashmap = "5"
futures = "0.3"
gethostname = "0.4"
lz4_flex = "0.11"
parking_lot = "0.12"
pin-project-lite = "0.2"
prost = "0.12"
rand = "0.8"
roaring = "0.10"
serde = { version = "1", features = ["derive"] }
thiserror = "1"
tokio = { version = "1", features = ["full"] }
tokio-util = { version = "0.7", features = ["codec"] }
tracing = "0.1"
uuid = { version = "1", features = ["v4"] }
zstd = "0.13"
