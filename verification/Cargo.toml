[package]
name = "noxious"
version = "0.1.0"
edition = "2021"
publish = false

[dependencies]
bytes = "1"
rand = "0.8"
serde = { version = "1", features = ["derive"] }
serde_json = "1"
tokio = { version = "1", features = ["full"] }
tokio-util = { version = "0.7", features = ["codec"] }
futures = "0.3"
bmrng = "*"
warp = { version = "0.3", default-features = false }
reqwest = { version = "0.11", default-features = false, features = ["json"] }
clap = { version = "3", features = ["derive"] }
thiserror = "1"
tracing = "0.1"
pretty_env_logger = "0.4"
async-trait = "0.1"
pin-project-lite = "0.2"
