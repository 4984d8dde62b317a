[package]
name = "modernity"
version = "0.1.0"
edition = "2021"
publish = false

[dependencies]
anyhow = "=1.0.104"
cargo_toml = "=1.0.1"
clap = { version = "=4.6.7", features = ["derive"] }
crates_io_api = "=0.12.0"
csv = "=1.4.0"
env_logger = "=0.11.11"
flate2 = "=1.1.10"
indicatif = "=0.18.6"
indicatif-log-bridge = "=0.2.3"
log = "=0.4.34"
once_cell = "=1.21.4"
regex = "=1.13.1"
reqwest = { version = "=0.12.28", features = ["blocking"] }
serde = { version = "=1.0.229", features = ["derive"] }
serde_json = "=1.0.151"
syn = { version = "=2.0.119", features = ["full"] }
tar = "=0.4.46"
