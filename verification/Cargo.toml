[package]
name = "cedarling_pdp"
version = "0.1.0"
edition = "2021"
publish = false

[dependencies]
anyhow = "1"
base64 = "0.22"
cedar-policy = "4"
chrono = "0.4"
crossterm = "0.28"
jsonwebtoken = "9"
reqwest = { version = "0.12", default-features = false }
semver = "1"
serde = { version = "1", features = ["derive"] }
serde_json = "1"
thiserror = "1"
tokio = { version = "1", features = ["rt", "time", "macros"] }
