[package]
name = "ravn"
version = "0.1.0"
edition = "2021"
publish = false

[dependencies]
anyhow = "=1.0.104"
async-nats = "=0.51.0"
async-trait = "=0.1.92"
base64 = "=0.22.1"
chrono = { version = "=0.4.45", features = ["serde"] }
ed25519-dalek = { version = "=2.2.0", features = ["rand_core"] }
futures-util = "=0.3.34"
hex = "=0.4.3"
k8s-openapi = { version = "=0.29.0", features = ["latest"] }
kube = { version = "=5.0.0", features = ["runtime"] }
nix = { version = "=0.29.0", features = ["socket", "user"] }
notify = "=8.2.1"
rand = "=0.8.8"
rcgen = "=0.13.2"
reqwest = { version = "=0.12.28", default-features = false, features = ["json"] }
rusqlite = { version = "=0.31.0", features = ["bundled"] }
schemars = { version = "=0.8.22", features = ["chrono", "uuid1"] }
serde = { version = "=1.0.229", features = ["derive"] }
serde_json = "=1.0.154"
sha2 = "=0.10.9"
similar = "=2.7.0"
tokio = { version = "=1.54.1", features = ["full"] }
tokio-tungstenite = "=0.30.0"
toml = "=0.8.23"
tracing = "=0.1.44"
tracing-subscriber = { version = "=0.3.23", features = ["env-filter"] }
uuid = { version = "=1.29.0", features = ["v7", "serde"] }
zbus = { version = "=6.2.1", default-features = false, features = ["tokio", "proxy"] }
