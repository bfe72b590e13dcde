[package]
name = "yooper"
version = "0.1.0"
edition = "2021"
publish = false

[dependencies]
uuid = { version = "*", features = ["v1"] }
bytes = "*"
tokio = { version = "*", features = ["full"] }
tokio-util = { version = "*", features = ["codec", "net"] }
futures = "*"
mac_address = "*"
os_info = "*"
clap = "*"
thiserror = "*"
serde = { version = "*", features = ["derive"] }
serde_with = "1"
serde-xml-rs = "*"
reqwest = { version = "*", default-features = false }
