[package]
name = "hualib"
version = "0.1.0"
edition = "2021"
publish = false

[dependencies]
md5 = "=0.7.0"
async-trait = "0.1"
chrono = { version = "0.4", default-features = false, features = ["clock", "std", "serde"] }
clap = { version = "3", features = ["derive"] }
env_logger = "0.9"
futures = "0.3"
log = "0.4"
mongodb = "2"
rand = "0.8"
regex = "1"
serde = { version = "1", features = ["derive"] }
serenity = "0.11"
songbird = "0.3"
tokio = { version = "1", features = ["rt-multi-thread", "macros", "signal"] }
toml = "0.5"

[dev-dependencies]
bytes = "1"
