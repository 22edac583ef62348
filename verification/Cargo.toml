[package]
name = "member_requests"
version = "0.1.0"
edition = "2021"
publish = false

[dependencies]
chrono = "=0.4.45"
mysql = { version = "=28.0.4", default-features = false, features = ["minimal-rust", "buffer-pool", "chrono"] }
rand = "=0.7.3"
serde = { version = "=1.0.229", features = ["derive"] }
serde_json = "=1.0.154"
