[package]
name = "octopus"
version = "0.1.0"
edition = "2021"
publish = false

[dependencies]
pretty_env_logger = "0.5"
reqwest = { version = "0.11", default-features = false, features = ["json"] }
serde = { version = "1", features = ["derive"] }
serde_json = "1"
tokio = { version = "1", features = ["macros", "rt-multi-thread", "sync"] }
warp = { version = "0.3", default-features = false }
