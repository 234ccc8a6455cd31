[package]
name = "qq"
version = "0.1.0"
edition = "2021"
publish = false

[dependencies]
anyhow = "=1.0.104"
arboard = "=3.6.1"
async-openai = { version = "=0.42.1", features = ["chat-completion"] }
async-trait = "=0.1.92"
chrono = "=0.4.45"
clap = { version = "=4.6.7", features = ["derive"] }
dirs = "=7.0.0"
reqwest = "=0.13.5"
serde = { version = "=1.0.229", features = ["derive"] }
serde_json = "=1.0.151"
spinoff = "=0.8.0"
tokio = { version = "=1.53.2", features = ["macros", "rt-multi-thread"] }
