[package]
name = "cef_scan"
version = "0.1.0"
edition = "2021"
publish = false

[dependencies]
base64 = "0.22"
encoding_rs = "0.8"
serde = { version = "1", features = ["derive"] }
serde_json = "1"
size = "*"
systemicons = "*"
tokio = { version = "1", features = ["macros", "process", "rt-multi-thread"] }
