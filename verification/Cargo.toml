[package]
name = "chase"
version = "0.1.0"
edition = "2021"
publish = false

[dependencies]
chrono = { version = "=0.4.45", default-features = false, features = ["alloc", "clock"] }
serde = { version = "=1.0.229", features = ["derive"] }
serde_json = "=1.0.154"
solana-sdk = "=2.3.1"
spl-token = { version = "=7.0.0", features = ["no-entrypoint"] }
log = "=0.4.35"
fern = "=0.7.1"
clap = { version = "=4.6.7", features = ["derive"] }
tokio = { version = "=1.54.1", features = ["macros", "rt-multi-thread", "time"] }
futures = "=0.3.34"
reqwest = { version = "=0.12.28", default-features = false, features = ["json"] }
