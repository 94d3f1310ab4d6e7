[package]
name = "feedback_ledger"
version = "0.1.0"
edition = "2021"
publish = false

[dependencies]
pickledb = "=0.5.1"
chrono = "=0.4.45"
serde = { version = "=1.0.229", features = ["derive"] }
toml = "=1.1.7"
tokio = { version = "=1.53.2", features = ["macros", "rt-multi-thread", "sync"] }
serenity = { version = "=0.10.10", features = ["unstable_discord_api"] }
