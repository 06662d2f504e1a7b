[package]
name = "lmstudio_rust"
version = "0.1.0"
edition = "2021"
publish = false

[dependencies]
clap = { version = "4", features = ["derive"] }
ctrlc = "3"
futures-util = "0.3"
indicatif = "0.17"
log = "0.4"
rand = "0.8"
reqwest = "0.12"
serde = { version = "1", features = ["derive"] }
serde_json = "1"
tabled = "0.16"
thiserror = "1"
tokio = { version = "1", features = ["full"] }
tokio-tungstenite = "0.21"
tokio-util = "0.7"
url = "2"
uuid = { version = "1", features = ["v4"] }
