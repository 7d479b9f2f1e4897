[package]
name = "nitroterm"
version = "0.1.0"
edition = "2021"
publish = false

[dependencies]
anyhow = "1"
chrono = "0.4"
clap = "4"
colored = "2"
dirs = "5"
dotenv = "0.15"
git2 = { version = "0.18", default-features = false }
regex = "1"
reqwest = { version = "0.11", default-features = false, features = ["json", "rustls-tls"] }
semver = "1"
serde = { version = "1", features = ["derive"] }
serde_json = "1"
sqlx = { version = "0.7", default-features = false, features = ["sqlite", "runtime-tokio"] }
tokio = { version = "1", features = ["rt-multi-thread", "macros", "fs", "time"] }

[dev-dependencies]
tempfile = "3"
