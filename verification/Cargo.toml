[package]
name = "backend"
version = "0.1.0"
edition = "2021"
publish = false

[dependencies]
chrono = { version = "=0.4.45", default-features = false, features = ["std", "alloc", "clock"] }
constant_time_eq = "=0.3.1"
jsonwebtoken = "=9.3.1"
serde = { version = "=1.0.229", features = ["derive"] }
serde_json = { version = "=1.0.154", features = ["preserve_order"] }
rust_decimal = { version = "=1.43.0", features = ["maths"] }
sha2 = "=0.10.9"
feed-rs = "=2.4.0"
