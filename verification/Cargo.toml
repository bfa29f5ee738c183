[package]
name = "voice_assistant"
version = "0.1.0"
edition = "2021"
publish = false

[dependencies]
anyhow = "1"
log = "0.4"
serde = { version = "1", features = ["derive"] }
serde_json = "1"
uuid = { version = "1", features = ["v4"] }
embassy-executor = { version = "*", features = ["arch-std", "executor-thread"] }
embassy-sync = "*"
embassy-time = { version = "*", features = ["std"] }
embedded-svc = "*"
esp-idf-hal = "*"
esp-idf-svc = "*"
