[package]
name = "hls_bot"
version = "0.1.0"
edition = "2021"
publish = false

[dependencies]
url = "=2.5.8"
serde_json = "=1.0.151"
chrono = "=0.4.45"
lapin = "=2.5.5"
tokio = { version = "=1.53.2", features = ["macros", "rt-multi-thread"] }
teloxide = { version = "=0.17.0", features = ["macros"] }
takecell = "<0.1.2"
dotenv = "=0.15.0"
dptree = "=0.5.1"
futures-lite = "=2.6.1"
log = "=0.4.34"
pretty_env_logger = "=0.5.0"
