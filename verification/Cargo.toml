[package]
name = "cubera"
version = "0.1.0"
edition = "2021"
publish = false

[dependencies]
serde = { version = "=1.0.229", features = ["derive"] }
serde_json = "=1.0.154"
sha1 = "=0.10.7"
md-5 = "0.10"
uuid = "=1.29.0"
hex = "=0.4.3"
regex = "=1.13.1"
urlencoding = "=2.1.3"
base64 = "=0.22.1"
dirs = "=5.0.1"
chrono = "=0.4.45"
once_cell = "=1.21.4"
futures-util = "=0.3.34"
tokio = { version = "=1.54.1", features = ["time", "sync", "rt", "macros"] }
reqwest = { version = "=0.12.28", default-features = false, features = ["json", "stream"] }
zip = { version = "=2.6.1", default-features = false, features = ["deflate"] }
