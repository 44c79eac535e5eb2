[package]
name = "ai4edu"
version = "0.1.0"
edition = "2021"
publish = false

[dependencies]
async-trait = "*"
chrono = { version = "*", default-features = false, features = ["clock"] }
log = "*"
reqwest = { version = "*", default-features = false, features = ["json"] }
rusqlite = { version = "*", features = ["bundled"] }
serde = { version = "*", features = ["derive"] }
serde_json = "*"
thiserror = "*"
tokio = { version = "*", default-features = false, features = ["sync"] }
tracing = { version = "*", default-features = false, features = ["std"] }
tracing-subscriber = { version = "*", default-features = false, features = ["env-filter", "fmt"] }
uuid = { version = "*", default-features = false, features = ["v4"] }
