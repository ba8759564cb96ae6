[package]
name = "lockscan"
version = "0.1.0"
edition = "2021"
publish = false

[dependencies]
anyhow = "=1.0.104"
cargo-lock = "=11.1.0"
chrono = "=0.4.45"
rustsec = { version = "=0.33.0", default-features = false }
semver = "=1.0.28"
serde = { version = "=1.0.229", features = ["derive"] }
serde_json = "=1.0.154"
walkdir = "=2.5.0"
zip = { version = "=9.1.0", default-features = false, features = ["deflate"] }
