[package]
name = "bot"
version = "0.1.0"
edition = "2021"
publish = false

[dependencies]
anyhow = "=1.0.104"
async-openai = { version = "=0.42.1", features = ["chat-completion"] }
clap = { version = "=4.6.7", features = ["derive"] }
schemars = "=1.2.2"
serde = { version = "=1.0.229", features = ["derive"] }
serde_json = "=1.0.151"
tokio = { version = "=1.53.2", features = ["macros", "rt-multi-thread", "process"] }
toml = "=1.1.7"
tracing = "=0.1.44"
tracing-subscriber = "=0.3.23"
xdg = "=3.0.0"
