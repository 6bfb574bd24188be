[package]
name = "gemini_ui"
version = "0.1.0"
edition = "2021"
publish = false

[dependencies]
serde_json = "1"
serde = { version = "1", features = ["derive"] }
rusqlite = "*"
tokio = { version = "1", features = ["process", "rt-multi-thread"] }
