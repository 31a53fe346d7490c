[package]
name = "eth2_simulator"
version = "0.1.0"
edition = "2021"
publish = false

[dependencies]
rand = "=0.10.3"
serde = "=1.0.229"
serde_derive = "=1.0.229"
tokio = { version = "=1.53.2", features = ["macros", "rt-multi-thread", "sync", "time"] }
warp = { version = "=0.4.3", features = ["server"] }
base64 = "=0.23.1"
chrono = "=0.4.45"
clap = { version = "=4.6.7", features = ["derive"] }
pretty_env_logger = "=0.5.0"
