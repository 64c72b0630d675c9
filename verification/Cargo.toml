[package]
name = "lucky-wol-agent"
version = "0.1.0"
edition = "2021"
publish = false

[dependencies]
base64 = "0.22"
chrono = { version = "0.4", default-features = false, features = ["clock"] }
cipher = { version = "0.4", features = ["alloc", "block-padding"] }
des = "0.8"
dirs = "6"
ecb = { version = "0.1", features = ["alloc", "block-padding"] }
futures-util = { version = "0.3", default-features = false, features = ["sink", "std"] }
hostname = "0.4"
log = "0.4"
mac_address = "1"
native-tls = "0.2"
serde = { version = "1", features = ["derive"] }
serde_json = { version = "1", features = ["preserve_order"] }
tokio = { version = "1", features = ["net", "time"] }
tokio-tungstenite = { version = "*", features = ["native-tls"] }
uuid = { version = "1", features = ["v4"] }
