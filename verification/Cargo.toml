[package]
name = "instruckt"
version = "0.2.0"
edition = "2021"
publish = false

[dependencies]
base64 = "=0.22.1"
chrono = "=0.4.45"
dirs = "=6.0.0"
ulid = "=1.2.1"
rand_core = { version = "=0.9.5", features = ["os_rng"] }
serde = { version = "=1.0.229", features = ["derive"] }
serde_json = "=1.0.154"
fs2 = "=0.4.3"
walkdir = "=2.5.0"
rmcp = { version = "=3.8.0", features = ["server", "macros", "transport-io"] }
schemars = "=1.2.3"
tokio = { version = "=1.54.1", features = ["macros", "rt-multi-thread", "io-std", "sync"] }
anyhow = "=1.0.104"
thiserror = "=2.0.21"
log = "=0.4.35"

[dev-dependencies]
tempfile = "=3.27.0"
