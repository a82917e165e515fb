[package]
name = "rig"
version = "0.1.0"
edition = "2021"
publish = false

[dependencies]
url = "*"
clap = { version = "*", features = ["derive"] }
keyring = "*"
reqwest = { version = "*", default-features = false, features = ["json"] }
serde = { version = "*", features = ["derive"] }
serde_json = "*"
tokio = { version = "*", features = ["macros", "rt-multi-thread"] }
tracing = "*"
tracing-subscriber = { version = "*", features = ["env-filter", "json"] }
dirs = "*"
config = { version = "*", default-features = false, features = ["toml"] }
