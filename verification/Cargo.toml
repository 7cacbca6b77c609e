[package]
name = "chronos_core"
version = "0.1.0"
edition = "2021"
publish = false

[dependencies]
anyhow = "1"
clap = { version = "4", features = ["derive"] }
env_logger = "0.11"
log = "0.4"
ndarray = "0.16"
ort = { version = "2.0.0-rc.2", default-features = false }
reqwest = { version = "0.12", default-features = false }
serde = { version = "1", features = ["derive"] }
z3 = "0.12"
