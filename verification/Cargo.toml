[package]
name = "ghd"
version = "0.1.0"
edition = "2021"
publish = false

[dependencies]
clap = { version = "4", features = ["derive"] }
config = { version = "*", default-features = false, features = ["toml"] }
env_logger = "*"
flate2 = "1"
log = "0.4"
serde = { version = "1", features = ["derive"] }
serde_json = "1"
tar = "0.4"
thiserror = "1"
ureq = { version = "2", features = ["json"] }
zip = { version = "0.6", default-features = false, features = ["deflate"] }
