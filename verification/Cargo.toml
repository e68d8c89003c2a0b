[package]
name = "sas_kit"
version = "0.1.0"
edition = "2021"
publish = false

[dependencies]
anyhow = "1"
chardet = "0.2"
encoding_rs = "0.8"
serde = { version = "1", features = ["derive"] }
thiserror = "1"
