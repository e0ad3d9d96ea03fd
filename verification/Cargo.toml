[package]
name = "statusbot"
version = "0.1.0"
edition = "2021"
publish = false

[dependencies]
emojic = "0.4"
time = { version = "0.3", features = ["formatting", "parsing", "serde-well-known", "macros"] }
data-encoding = "2"
hyper = { version = "0.14", features = ["full"] }
hyper-tls = "0.5"
tokio = { version = "1", features = ["full"] }
serde = { version = "1", features = ["derive"] }
serde_json = "1"
url = "2"
dotenv = "0.15"
log = "0.4"
pretty_env_logger = "0.5"
