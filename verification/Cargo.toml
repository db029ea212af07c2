[package]
name = "millo"
version = "0.1.0"
edition = "2021"
publish = false

[dependencies]
serde = { version = "=1.0.229", features = ["derive"] }
serde_json = "=1.0.154"
thiserror = "=2.0.21"
async-trait = "=0.1.92"
sha2 = "=0.10.9"
rhai = { version = "=1.27.0", features = ["serde"] }
base64 = "0.22"
