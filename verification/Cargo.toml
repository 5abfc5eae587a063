[package]
name = "stormworks_tacview"
version = "0.1.0"
edition = "2021"
publish = false

[dependencies]
anyhow = "1"
async-trait = "0.1"
base64 = "0.21"
chrono = "0.4"
clap = { version = "4", features = ["derive"] }
dirs = "5"
hyper = { version = "0.14", features = ["server", "http1", "tcp"] }
serde = { version = "1", features = ["derive"] }
serde_yaml = "0.9"
tempfile = "3"
tokio = { version = "1", features = ["full"] }
tracing = "0.1"
tracing-subscriber = { version = "0.3", features = ["env-filter"] }
zip = { version = "0.6", default-features = false, features = ["deflate"] }
