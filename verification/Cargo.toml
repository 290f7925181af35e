[package]
name = "dockerbeam"
version = "1.0.0"
edition = "2021"
publish = false

[dependencies]
arboard = { version = "3", default-features = false }
async-std = "1"
bollard = "0.18"
console = "0.15"
dialoguer = { version = "0.11", features = ["fuzzy-select"] }
directories = "5"
dotenv = "0.15"
env_logger = "0.11"
futures = "0.3"
futures-util = "0.3"
indicatif = "0.17"
log = "0.4"
rustls = { version = "0.23", default-features = false, features = ["ring", "std", "tls12", "logging"] }
rustls-pki-types = "1"
serde = { version = "1", features = ["derive"] }
serde_json = "1"
tokio = { version = "1", features = ["full"] }
tokio-rustls = { version = "0.26", default-features = false, features = ["ring", "tls12", "logging"] }
tokio-tungstenite = { version = "0.24", features = ["rustls-tls-webpki-roots"] }
url = "2"
webrtc = "0.12"
