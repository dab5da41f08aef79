[package]
name = "parkur"
version = "0.1.0"
edition = "2021"
publish = false

[dependencies]
backhand = "=0.25.5"
flate2 = "=1.1.10"
futures-util = "=0.3.34"
hex = "=0.4.3"
liblzma = "=0.4.9"
reqwest = { version = "=0.12.28", default-features = false, features = ["stream", "native-tls"] }
serde = { version = "=1.0.229", features = ["derive"] }
serde_json = "=1.0.154"
sha-crypt = { version = "=0.6.0", features = ["getrandom"] }
sha2 = "=0.11.1"
tokio = { version = "=1.54.1", features = ["fs", "io-util"] }
zstd = "=0.13.4"
