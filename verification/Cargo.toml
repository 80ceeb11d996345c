[package]
name = "unity_mirror_rs"
version = "0.1.0"
edition = "2021"
publish = false

[dependencies]
nalgebra = "*"
kcp2k-rust = "*"
bytes = "*"
http = "*"
hostname = "*"
axum = "*"
tokio = { version = "*", features = ["rt", "net"] }
serde = { version = "*", features = ["derive"] }
once_cell = "*"
rand = "0.9"
ordered-float = "*"
