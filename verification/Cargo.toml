[package]
name = "rustlog"
version = "0.1.0"
edition = "2021"
publish = false

[dependencies]
anyhow = "1"
axum = { version = "0.8", features = ["ws"] }
axum-extra = { version = "0.10", features = ["typed-header"] }
chrono = "0.4"
clap = { version = "4", features = ["derive"] }
clickhouse = { version = "0.14", default-features = false }
dashmap = { version = "6", features = ["serde"] }
futures = "0.3"
lazy_static = "1"
prometheus = { version = "0.14", default-features = false }
rand = "0.9"
reqwest = { version = "0.12", default-features = false }
serde = { version = "1", features = ["derive"] }
serde_json = "1"
tokio = { version = "1", features = ["macros", "rt", "sync", "time"] }
tracing = "0.1"
twitch_api = { version = "0.7", features = ["client", "helix", "reqwest", "twitch_oauth2"] }
