[package]
name = "canvas_replay"
version = "0.1.0"
edition = "2021"
publish = false

[dependencies]
anyhow = "1"
chrono = "0.4"
csv = "1"
flate2 = "1"
futures = "0.3"
indicatif = "0.17"
itertools = "0.11"
sqlx = { version = "0.7", default-features = false, features = ["runtime-tokio", "sqlite"] }
subprocess = "0.2"
tokio = { version = "1", features = ["full"] }
