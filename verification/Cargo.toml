[package]
name = "botcore"
version = "0.1.0"
edition = "2021"
publish = false

[dependencies]
dotenv = "0.15"
serenity = { version = "0.10", features = ["unstable_discord_api", "voice"] }
songbird = "0.1"
tokio = { version = "1", features = ["macros", "rt-multi-thread", "sync", "time"] }
