[package]
name = "thumbor_rust"
version = "0.1.0"
edition = "2021"
publish = false

[dependencies]
hmac = "0.12"
sha1 = "0.10"
base64 = "*"
serde = { version = "*", features = ["derive"] }
config = "*"
actix-web = "4"
reqwest = { version = "*", default-features = false }
opencv = "*"
mime_guess = "*"
num_cpus = "*"
lazy_static = "*"
thiserror = "*"
anyhow = "*"
