[package]
name = "git_info"
version = "0.1.0"
edition = "2021"
publish = false

[dependencies]
anyhow = "1"
chrono = { version = "0.4", default-features = false, features = ["std"] }
cmd_lib = "1"
serde = { version = "1", features = ["derive"] }
serde_json = "1"
