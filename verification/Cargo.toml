[package]
name = "hearth"
version = "0.1.0"
edition = "2021"
publish = false

[dependencies]
serde = { version = "1", features = ["derive"] }
serde_json = "1"
chrono = "0.4"
rusqlite = { version = "*", features = ["bundled"] }
clap = { version = "4", features = ["derive"] }
anyhow = "1"
calamine = "*"
comfy-table = { version = "7", default-features = false }
tracing-subscriber = { version = "0.3", features = ["env-filter"] }
thiserror = "*"
reqwest = { version = "0.12", default-features = false, features = ["json", "rustls-tls"] }
tokio = { version = "1", features = ["rt-multi-thread", "macros", "time"] }
