[package]
name = "pixelbot"
version = "0.1.0"
edition = "2021"
publish = false

[dependencies]
argh = "0.1"
color-eyre = "0.6"
fjall = "2"
poise = "0.6"
serde = { version = "1", features = ["derive"] }
serde_json = "1"
tokio = { version = "1", features = ["macros", "rt-multi-thread", "time"] }
toml = "0.8"
