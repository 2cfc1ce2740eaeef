[package]
name = "oxmgr"
version = "0.1.0"
edition = "2021"
publish = false

[dependencies]
anyhow = "1"
axum = "0.8"
base64 = "0.22"
dirs = "5"
flate2 = "1"
nix = { version = "0.29", features = ["user"] }
serde = { version = "1", features = ["derive"] }
serde_json = "1"
sha2 = "0.10"
sysinfo = "0.33"
thiserror = "2"
tokio = { version = "1", features = ["full"] }
tracing = "0.1"
