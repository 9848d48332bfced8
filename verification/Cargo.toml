[package]
name = "sashiko"
version = "0.1.0"
edition = "2021"
publish = false

[dependencies]
anyhow = "1"
async-trait = "0.1"
axum = "0.7"
chrono = "0.4"
chrono-tz = "0.9"
clap = { version = "4", features = ["derive"] }
config = { version = "0.14", default-features = false, features = ["json", "toml"] }
ctrlc = "3"
futures = "0.3"
libsql = { version = "0.9", default-features = false, features = ["core"] }
regex = "1"
reqwest = { version = "0.12", default-features = false, features = ["json", "stream"] }
serde = { version = "1", features = ["derive"] }
serde_json = "1"
sqlx = { version = "0.7", default-features = false, features = ["runtime-tokio", "sqlite", "macros"] }
thiserror = "1"
tokio = { version = "1", features = ["macros", "rt-multi-thread", "net", "time", "sync"] }
tower-http = { version = "0.5", features = ["cors", "fs", "trace"] }
tracing = "0.1"
tracing-subscriber = { version = "0.3", features = ["env-filter"] }
