[package]
name = "ac_cloud_server_manager"
version = "0.1.0"
edition = "2021"
publish = false

[dependencies]
rust-ini = "0.21"
hex = "0.4"
aes-gcm = "0.10"
base64 = "0.22"
flate2 = "1"
tar = "0.4"
serde = { version = "1", features = ["derive"] }
serde_json = "1"
thiserror = "2"
uuid = { version = "1", features = ["v4"] }
tokio = { version = "1", features = ["full"] }
futures-util = "0.3"
bollard = "0.19"
ssh2 = "0.9"
shellexpand = "3"
keyring = "3"
rust-i18n = "3"
qmetaobject = "0.2"
cxx-qt = "0.7"
cxx-qt-lib = "0.7"
