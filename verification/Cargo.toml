[package]
name = "agent_web_server"
version = "0.1.0"
edition = "2021"
publish = false

[dependencies]
anyhow = "=1.0.104"
async-openai = { version = "=0.42.1", features = ["chat-completion"] }
axum = "=0.8.9"
clap = { version = "=4.6.7", features = ["derive"] }
jwt-simple = "=0.11.9"
serde = { version = "=1.0.229", features = ["derive"] }
serde_json = "=1.0.151"
tokio = { version = "=1.53.2", features = ["rt-multi-thread", "macros", "net", "time", "sync"] }
toml = "=0.9.8"
tower-http = { version = "=0.7.1", features = ["cors"] }
uuid = { version = "=1.27.0", features = ["v4"] }
