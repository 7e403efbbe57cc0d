[package]
name = "melange"
version = "0.1.0"
edition = "2021"
publish = false

[dependencies]
anyhow = "=1.0.104"
clap = { version = "=4.6.7", features = ["derive"] }
env_logger = "=0.11.11"
llm = { version = "=1.1.0", default-features = false, features = ["anthropic", "deepseek", "google", "groq", "ollama", "openai", "phind", "xai"] }
log = "=0.4.34"
proc-macro2 = { version = "=1.0.107", features = ["span-locations"] }
regex = "=1.13.1"
serde = { version = "=1.0.229", features = ["derive"] }
syn = { version = "=2.0.119", features = ["full"] }
tokio = { version = "=1.54.1", features = ["macros", "rt-multi-thread"] }
toml = "=0.8.23"
