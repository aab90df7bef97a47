[package]
name = "quantum_vpn"
version = "0.1.0"
edition = "2021"
publish = false

[dependencies]
aes-gcm = "=0.10.3"
pqcrypto-kyber = "=0.8.1"
pqcrypto-dilithium = "=0.5.0"
pqcrypto-traits = "=0.3.5"
uuid = { version = "=1.29.0", features = ["v4"] }
url = "=2.5.8"
thiserror = "=2.0.21"
serde = { version = "=1.0.229", features = ["derive"] }
serde_json = "=1.0.154"
actix-web = "=4.18.1"
actix-ws = "=0.4.0"
actix-rt = "=2.15.0"
actix-cors = "=0.7.2"
tokio = { version = "=1.54.1", features = ["rt", "macros", "time"] }
futures = "=0.3.34"
reqwest = { version = "=0.12.28", default-features = false, features = ["rustls-tls"] }
rand = "0.8"
log = "=0.4.35"
env_logger = "=0.11.11"
