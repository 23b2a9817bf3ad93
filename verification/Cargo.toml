[package]
name = "dictyon"
version = "0.1.0"
edition = "2021"
publish = false

[dependencies]
base64 = "0.22"
rand = "0.8"
rustls = { version = "0.23", default-features = false, features = ["ring", "std", "tls12", "logging"] }
serde = { version = "1", features = ["derive"] }
serde_json = "1"
snafu = "0.8"
snow = "*"
tokio = { version = "1", features = ["net", "io-util", "rt"] }
tokio-rustls = { version = "0.26", default-features = false, features = ["ring", "tls12", "logging"] }
webpki-roots = "*"
x25519-dalek = { version = "2", features = ["static_secrets", "zeroize"] }
zeroize = "1"
