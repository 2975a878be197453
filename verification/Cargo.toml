[package]
name = "pilatus"
version = "0.1.0"
edition = "2021"
publish = false

[dependencies]
uuid = { version = "=1.29.0", features = ["v4"] }
smallvec = "=1.16.4"
itertools = "=0.15.0"
serde = { version = "=1.0.229", features = ["derive"] }
serde_json = "=1.0.154"
futures = "=0.3.34"
tokio = { version = "=1.54.1", features = ["rt", "rt-multi-thread", "sync", "fs", "io-util", "macros", "time"] }
pin-project = "=1.1.13"
anyhow = "=1.0.104"
thiserror = "=2.0.21"
glob = "=0.3.4"
config = { version = "=0.15.27", default-features = false, features = ["json"] }
tracing = "=0.1.44"
async-trait = "=0.1.92"

[dev-dependencies]
tempfile = "3"
