[package]
name = "llmconduit"
version = "0.1.0"
edition = "2021"
publish = false

[dependencies]
axum = { version = "0.8", features = ["ws"] }
clap = { version = "4", features = ["derive"] }
dialoguer = "0.11"
dirs = "5"
hex = "0.4"
regex = "1"
reqwest = { version = "0.12", default-features = false, features = ["json"] }
serde = { version = "1", features = ["derive"] }
serde_json = "1"
serde_yaml = "0.9"
sha2 = "0.10"
tokio = { version = "1", features = ["macros", "rt-multi-thread", "net", "sync", "time"] }
toml = { version = "0.8", features = ["preserve_order"] }
tracing = "0.1"
url = "2"
uuid = { version = "1", features = ["v4"] }
