[package]
name = "git_ai"
version = "0.1.0"
edition = "2021"
publish = false

[dependencies]
anthropic = "=0.0.8"
anyhow = "*"
async-openai = { version = "=0.42.1", features = ["chat-completion"] }
chrono = { version = "=0.4.45", default-features = false, features = ["std", "clock"] }
clap = { version = "=4.6.7", features = ["derive"] }
dotenv = "*"
git2 = { version = "=0.21.0", default-features = false }
tokio = { version = "=1.53.2", features = ["macros", "rt-multi-thread"] }
tracing = "*"
tracing-subscriber = { version = "*", default-features = false, features = ["fmt", "ansi"] }

[dev-dependencies]
serde_json = "*"
