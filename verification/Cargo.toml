[package]
name = "mongodb_cli"
version = "0.1.0"
edition = "2021"
publish = false

[dependencies]
serde_json = "=1.0.151"
bson = { version = "=2.15.0", features = ["chrono-0_4"] }
serde = { version = "=1.0.229", features = ["derive"] }
mongodb = { version = "=2.8.2", default-features = false, features = ["sync"] }
clap = "=2.34.0"
atty = "=0.2.14"

[dev-dependencies]
chrono = "=0.4.45"
