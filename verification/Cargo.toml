[package]
name = "shamebot"
version = "0.1.0"
edition = "2021"
publish = false

[dependencies]
dotenv = "0.15"
rusqlite = { version = "0.32", features = ["bundled"] }
serde = { version = "1", features = ["derive"] }
serde_json = "1"
serenity = "0.12"
tokio = { version = "1", features = ["macros", "rt-multi-thread"] }
