[package]
name = "crunchy_query"
version = "0.1.0"
edition = "2021"
publish = false

[dependencies]
crunchyroll-rs = "=0.19.1"
clap = { version = "=4.6.7", features = ["derive"] }
anyhow = "=1.0.104"
log = "=0.4.34"
tokio = { version = "=1.53.2", features = ["rt", "macros"] }
futures-util = "=0.3.34"

[dev-dependencies]
serde_json = "=1.0.151"
