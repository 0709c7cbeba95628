[package]
name = "openprov"
version = "0.1.0"
edition = "2021"
publish = false

[dependencies]
asn1-rs = "0.6"
chrono = "0.4"
serde = { version = "1", features = ["derive"] }
thiserror = "1"
x509-parser = "0.16"

[dev-dependencies]
lopdf = { version = "*", default-features = false }
