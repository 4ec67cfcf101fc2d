[package]
name = "capacitor_bot"
version = "0.1.0"
edition = "2021"
publish = false

[dependencies]
anyhow = "1"
rayon = "1"
serde = { version = "1", features = ["derive"] }
serde_json = "1"
serenity = { version = "0.12", features = ["collector", "unstable_discord_api"] }
tokio = { version = "1", features = ["macros", "rt-multi-thread", "sync", "time"] }
