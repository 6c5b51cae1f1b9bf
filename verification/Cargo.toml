[package]
name = "cargodrop"
version = "0.1.0"
edition = "2021"
publish = false

[dependencies]
aes-gcm = "0.10"
base64 = "0.22"
ble-peripheral-rust = "*"
btleplug = "*"
chrono = "0.4"
clap = { version = "4", features = ["derive"] }
dirs = "5"
ed25519-dalek = "2"
futures = "0.3"
hex = "0.4"
hkdf = "0.12"
hostname = "0.4"
lazy_static = "1"
rand = "0.8"
serde = { version = "1", features = ["derive"] }
serde_json = "1"
sha2 = "0.10"
tokio = { version = "1", features = ["full"] }
uuid = { version = "1", features = ["v4"] }
x25519-dalek = { version = "2", features = ["static_secrets"] }
