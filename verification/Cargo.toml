[package]
name = "pjc_rpc"
version = "0.1.0"
edition = "2021"
publish = false

[dependencies]
base64 = "0.22"
serde = { version = "1", features = ["derive"] }
serde_json = "1"
reqwest = { version = "0.12", default-features = false, features = ["json"] }
tonic = { version = "0.12", features = ["tls"] }
url = "2"
retry = "2"
futures = "0.3"
