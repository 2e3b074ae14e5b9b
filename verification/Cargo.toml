[package]
name = "ismp_core"
version = "0.1.0"
edition = "2021"
publish = false

[dependencies]
parity-scale-codec = "*"
sha2 = "*"
tokio = { version = "*", features = ["sync"] }
