[package]
name = "reedcms"
version = "0.1.0"
edition = "2021"
publish = false

[dependencies]
sha2 = "0.10"
md5 = "0.7"
serde = { version = "1", features = ["derive"] }
serde_json = "1"
toml = "0.8"
chrono = "0.4"
flate2 = "1"
tar = "0.4"
notify = "4"
