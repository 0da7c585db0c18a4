[package]
name = "term_squire"
version = "0.1.0"
edition = "2021"
publish = false

[dependencies]
elementtree = "*"
chrono = "*"
rusqlite = { version = "*", features = ["bundled"] }
axum = "*"
tokio = { version = "*", features = ["full"] }
clap = { version = "*", features = ["derive"] }
serde = { version = "*", features = ["derive"] }
serde_json = "*"
anyhow = "*"
color-eyre = "*"
tracing = "*"
tracing-subscriber = { version = "*", features = ["env-filter"] }
