[package]
name = "operon_gui"
version = "0.1.0"
edition = "2021"
publish = false

[dependencies]
pulldown-cmark = { version = "=0.12.2", default-features = false }
syntect = { version = "=5.3.0", default-features = false, features = ["default-fancy"] }
serde = { version = "=1.0.229", features = ["derive"] }
serde_json = "=1.0.154"
toml = "=0.8.23"
sha2 = "=0.10.9"
base64 = "=0.22.1"
dirs = "=5.0.1"
anyhow = "=1.0.104"
tracing = "=0.1.44"
auto-launch = "*"
notify = "*"
