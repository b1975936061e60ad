[package]
name = "plexus_music"
version = "0.3.0"
edition = "2021"
publish = false

[dependencies]
rand = "=0.9.5"
chrono = "=0.4.45"
base64 = "=0.22.1"
dirs = "=6.0.0"
serde = { version = "1", features = ["derive"] }
serde_json = "1"
schemars = "1"
tokio = { version = "1", features = ["full"] }
reqwest = { version = "0.12", default-features = false, features = ["json", "stream"] }
async-trait = "0.1"
async-stream = "0.3"
futures = "0.3"
anyhow = "1"
tracing = "0.1"
sqlx = { version = "0.8", default-features = false, features = ["sqlite", "runtime-tokio"] }
axum = "0.8"
rodio = "*"
plexus-core = "*"
plexus-macros = "*"
